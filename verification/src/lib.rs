//! A single-player-vs-AI Pong game built on a small entity-component
//! architecture: entities are integer ids, components are per-type tables
//! keyed by id, and systems scan those tables once per frame.
//!
//! This crate holds the game's whole logic: id allocation, component
//! storage, geometry, the per-frame systems, the font cache, the two
//! screens and the frame loop's state machine. Windowing, rendering and
//! input capture are left to the binary around it, which hands plain
//! event values in and carries draw commands out.

pub mod application;
pub mod ball;
pub mod button;
pub mod componentmanager;
pub mod components;
pub mod fontmanager;
pub mod gamestate;
pub mod geometry;
pub mod mainmenustate;
pub mod paddle;
pub mod pongstate;
pub mod systems;
pub mod util;
