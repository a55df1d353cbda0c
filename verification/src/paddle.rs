//! The paddle: its three-valued movement intent and the factory that
//! builds a fully-formed paddle entity.

use vstd::prelude::*;
use crate::componentmanager::ComponentManager;
use crate::components::{CCollision2D, CMovement2D, CPaddleInfo, CPosition2D, CTexture};
use crate::geometry::{Color, Point};

verus! {

/// A paddle's vertical movement intent.
#[derive(Debug, PartialEq, Eq, Structural, Copy, Clone)]
pub enum Direction {
    Up,
    Down,
    Stationary,
}

/// The left paddle's start position.
pub const START_P1_X: i32 = 64;

/// See `START_P1_X`.
pub const START_P1_Y: i32 = 360;

/// The right paddle's start position.
pub const START_P2_X: i32 = 1216;

/// See `START_P2_X`.
pub const START_P2_Y: i32 = 360;

/// Builds one paddle entity: a 10 by 100 white bar at the left or
/// right start position, stationary, at 540 px/sec, with its AI
/// decision timer set to `now_ms` and a 125 ms decision delay.
pub fn create(cmanager: &mut ComponentManager, is_left: bool, is_ai: bool, name: &str, now_ms: u64)
    requires
        old(cmanager).id_allocator.inv(),
        old(cmanager).id_allocator.model().next < usize::MAX,
    ensures
        ({
            let id = old(cmanager).id_allocator.model().alloc_choice();
            let cm = *final(cmanager);
            let cm0 = *old(cmanager);
            let start = if is_left {
                Point { x: START_P1_X, y: START_P1_Y }
            } else {
                Point { x: START_P2_X, y: START_P2_Y }
            };
            &&& cm.id_allocator.model() == cm0.id_allocator.model().after_alloc()
            &&& cm.id_allocator.inv()
            &&& cm.ccollision_2d@.contains_key(id)
            &&& cm.ccollision_2d@[id].id == id
            &&& cm.ccollision_2d@[id].name@ == name@
            &&& cm.ccollision_2d@[id].size == (10u32, 100u32)
            &&& cm.ccollision_2d@.remove(id) == cm0.ccollision_2d@.remove(id)
            &&& cm.cmovement_2d@.contains_key(id)
            &&& cm.cmovement_2d@[id].id == id
            &&& cm.cmovement_2d@[id].name@ == name@
            &&& cm.cmovement_2d@[id].speed == 540u32
            &&& cm.cmovement_2d@[id].x == 0
            &&& cm.cmovement_2d@[id].y == 0
            &&& cm.cmovement_2d@.remove(id) == cm0.cmovement_2d@.remove(id)
            &&& cm.cpaddle_info@.contains_key(id)
            &&& cm.cpaddle_info@[id].id == id
            &&& cm.cpaddle_info@[id].name@ == name@
            &&& cm.cpaddle_info@[id].direction == Direction::Stationary
            &&& cm.cpaddle_info@[id].ai_delay == 125u64
            &&& cm.cpaddle_info@[id].ai_delay_timer == now_ms
            &&& cm.cpaddle_info@[id].is_ai == is_ai
            &&& cm.cpaddle_info@.remove(id) == cm0.cpaddle_info@.remove(id)
            &&& cm.cposition_2d@.contains_key(id)
            &&& cm.cposition_2d@[id].id == id
            &&& cm.cposition_2d@[id].name@ == name@
            &&& cm.cposition_2d@[id].pos == start
            &&& cm.cposition_2d@.remove(id) == cm0.cposition_2d@.remove(id)
            &&& cm.ctexture@.contains_key(id)
            &&& cm.ctexture@[id].id == id
            &&& cm.ctexture@[id].name@ == name@
            &&& cm.ctexture@[id].size == (10u32, 100u32)
            &&& cm.ctexture@[id].color == Color::spec_white()
            &&& cm.ctexture@.remove(id) == cm0.ctexture@.remove(id)
            &&& cm.cbutton_info@ == cm0.cbutton_info@
            &&& cm.ctext@ == cm0.ctext@
        }),
{
    let id = cmanager.id_allocator.get_number();

    let collision_2d = CCollision2D { id, name: name.to_owned(), size: (10, 100) };

    let movement_2d = CMovement2D { id, name: name.to_owned(), speed: 540, x: 0, y: 0 };

    let position_2d: CPosition2D;

    if is_left {
        position_2d = CPosition2D {
            id,
            name: name.to_owned(),
            pos: Point::new(START_P1_X, START_P1_Y),
        };
    } else {
        position_2d = CPosition2D {
            id,
            name: name.to_owned(),
            pos: Point::new(START_P2_X, START_P2_Y),
        };
    }

    let texture = CTexture { id, name: name.to_owned(), size: (10, 100), color: Color::white() };

    let paddle_info = CPaddleInfo {
        id,
        name: name.to_owned(),
        direction: Direction::Stationary,
        ai_delay: 125,
        ai_delay_timer: now_ms,
        is_ai,
    };

    cmanager.ccollision_2d.insert(id, collision_2d);
    cmanager.cmovement_2d.insert(id, movement_2d);
    cmanager.cpaddle_info.insert(id, paddle_info);
    cmanager.cposition_2d.insert(id, position_2d);
    cmanager.ctexture.insert(id, texture);

    proof {
        let cm0 = *old(cmanager);
        assert(cmanager.ccollision_2d@.remove(id) =~= cm0.ccollision_2d@.remove(id));
        assert(cmanager.cmovement_2d@.remove(id) =~= cm0.cmovement_2d@.remove(id));
        assert(cmanager.cpaddle_info@.remove(id) =~= cm0.cpaddle_info@.remove(id));
        assert(cmanager.cposition_2d@.remove(id) =~= cm0.cposition_2d@.remove(id));
        assert(cmanager.ctexture@.remove(id) =~= cm0.ctexture@.remove(id));
    }
}

} // verus!
