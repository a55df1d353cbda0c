//! Frame-level utilities: the input-event buffer, the random direction
//! helper behind ball creation and scoring, and the small helpers that
//! request screen switches and termination.

use vstd::prelude::*;
use crate::componentmanager::ComponentManager;
use crate::gamestate::{AppContext, GameStates};

verus! {

/// A mouse button; only the left one triggers buttons.
#[derive(Debug, PartialEq, Eq, Structural, Copy, Clone)]
pub enum MouseBtn {
    Left,
    Middle,
    Right,
    Other,
}

/// The keys the game recognizes; every other key arrives as `Other`.
#[derive(Debug, PartialEq, Eq, Structural, Copy, Clone)]
pub enum KeyCode {
    W,
    S,
    P,
    Escape,
    Other,
}

/// One device or window event, as the windowing backend delivers it:
/// a close request, a key transition, or a mouse press at a point.
#[derive(Debug, PartialEq, Eq, Structural, Copy, Clone)]
pub enum GameEvent {
    Quit,
    KeyDown { keycode: KeyCode },
    KeyUp { keycode: KeyCode },
    MouseButtonDown { mouse_btn: MouseBtn, x: i32, y: i32 },
    Other,
}

/// The per-frame input buffer: the events pending at the top of the
/// frame, in arrival order, valid until the next refresh.
pub struct EventRunner {
    pub event_list: Vec<GameEvent>,
}

impl EventRunner {
    pub fn new() -> (e: EventRunner)
        ensures
            e.event_list@ == Seq::<GameEvent>::empty(),
    {
        EventRunner { event_list: Vec::new() }
    }

    /// Discards the previous frame's buffer and replaces it with the
    /// events drained from the backend this frame, in arrival order.
    pub fn refresh(&mut self, pending: Vec<GameEvent>)
        ensures
            final(self).event_list@ == pending@,
    {
        self.event_list = pending;
    }
}

/// Relies on rand::random: a value drawn from the process-wide
/// generator; nothing can be promised of which one.
pub assume_specification<T>[ rand::random::<T> ]() -> (r: T)
    where
        rand::distributions::Standard: rand::distributions::Distribution<T>,
;

/// A fresh diagonal direction: each axis is independently 1 or -1,
/// drawn from the pseudorandom generator.
pub fn random_direction() -> (d: (i32, i32))
    ensures
        d.0 == 1 || d.0 == -1,
        d.1 == 1 || d.1 == -1,
{
    let x: i32 = match rand::random::<bool>() {
        true => 1,
        false => -1,
    };

    let y: i32 = match rand::random::<bool>() {
        true => 1,
        false => -1,
    };

    (x, y)
}

/// A fresh, empty component store.
pub fn create_component_manager() -> (cm: ComponentManager)
    ensures
        cm.is_fresh(),
{
    ComponentManager::new()
}

/// A snapshot of the ids currently allocated in `cmanage`'s store.
pub fn get_allocated_ids(cmanage: &ComponentManager) -> (r: Vec<usize>)
    ensures
        r@ == cmanage.id_allocator.model().allocated,
{
    cmanage.id_allocator.get_allocated_ids()
}

/// Requests that `new_state`'s screen run from the next frame on.
pub fn change_gamestate(ctx: &mut AppContext, new_state: GameStates)
    ensures
        final(ctx).state == new_state,
        final(ctx).running == old(ctx).running,
{
    ctx.state = new_state;
}

/// Sets the running flag; `false` requests termination, observed at
/// the top of the next frame.
pub fn set_play(ctx: &mut AppContext, play: bool)
    ensures
        final(ctx).state == old(ctx).state,
        final(ctx).running == play,
{
    ctx.running = play;
}

} // verus!
