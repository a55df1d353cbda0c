//! The ball: its factory and the name-based lookup other systems use
//! to find it.

use vstd::prelude::*;
use crate::componentmanager::ComponentManager;
use crate::components::{CCollision2D, CMovement2D, CPosition2D, CTexture, Component};
use crate::geometry::{Color, Point};
use crate::util;

verus! {

/// The canonical ball start position: the playfield center.
pub const START_BALL_X: i32 = 640;

/// See `START_BALL_X`.
pub const START_BALL_Y: i32 = 360;

/// ASCII upper-case letters fold to lower case; every other code point
/// stands.
pub open spec fn ascii_lower(u: u32) -> u32 {
    if 65 <= u && u <= 90 {
        (u + 32) as u32
    } else {
        u
    }
}

/// Character sequences equal up to ASCII case.
pub open spec fn eq_ignore_case(a: Seq<char>, b: Seq<char>) -> bool {
    a.len() == b.len() && forall|i: int|
        0 <= i < a.len() ==> ascii_lower((#[trigger] a[i]) as u32) == ascii_lower(b[i] as u32)
}

/// Whether two strings match up to ASCII case.
pub fn eq_ignore_ascii_case_str(a: &str, b: &str) -> (r: bool)
    ensures
        r == eq_ignore_case(a@, b@),
{
    let la = a.unicode_len();
    let lb = b.unicode_len();
    if la != lb {
        return false;
    }
    let mut i: usize = 0;
    while i < la
        invariant
            la == a@.len(),
            la == b@.len(),
            i <= la,
            forall|k: int|
                0 <= k < i ==> ascii_lower((#[trigger] a@[k]) as u32) == ascii_lower(
                    b@[k] as u32,
                ),
        decreases la - i,
    {
        let ua = a.get_char(i) as u32;
        let ub = b.get_char(i) as u32;
        let fa = if 65 <= ua && ua <= 90 {
            ua + 32
        } else {
            ua
        };
        let fb = if 65 <= ub && ub <= 90 {
            ub + 32
        } else {
            ub
        };
        if fa != fb {
            return false;
        }
        i += 1;
    }
    true
}

/// Builds the single ball entity: a 10 by 10 white square at the
/// playfield center, moving at 540 px/sec in a fresh random diagonal.
pub fn create(cmanager: &mut ComponentManager)
    requires
        old(cmanager).id_allocator.inv(),
        old(cmanager).id_allocator.model().next < usize::MAX,
    ensures
        ({
            let id = old(cmanager).id_allocator.model().alloc_choice();
            let cm = *final(cmanager);
            let cm0 = *old(cmanager);
            &&& cm.id_allocator.model() == cm0.id_allocator.model().after_alloc()
            &&& cm.id_allocator.inv()
            &&& cm.ccollision_2d@.contains_key(id)
            &&& cm.ccollision_2d@[id].id == id
            &&& cm.ccollision_2d@[id].name@ == "ball"@
            &&& cm.ccollision_2d@[id].size == (10u32, 10u32)
            &&& cm.ccollision_2d@.remove(id) == cm0.ccollision_2d@.remove(id)
            &&& cm.cmovement_2d@.contains_key(id)
            &&& cm.cmovement_2d@[id].id == id
            &&& cm.cmovement_2d@[id].name@ == "ball"@
            &&& cm.cmovement_2d@[id].speed == 540u32
            &&& (cm.cmovement_2d@[id].x == 1 || cm.cmovement_2d@[id].x == -1)
            &&& (cm.cmovement_2d@[id].y == 1 || cm.cmovement_2d@[id].y == -1)
            &&& cm.cmovement_2d@.remove(id) == cm0.cmovement_2d@.remove(id)
            &&& cm.cposition_2d@.contains_key(id)
            &&& cm.cposition_2d@[id].id == id
            &&& cm.cposition_2d@[id].name@ == "ball"@
            &&& cm.cposition_2d@[id].pos == (Point { x: START_BALL_X, y: START_BALL_Y })
            &&& cm.cposition_2d@.remove(id) == cm0.cposition_2d@.remove(id)
            &&& cm.ctexture@.contains_key(id)
            &&& cm.ctexture@[id].id == id
            &&& cm.ctexture@[id].name@ == "ball"@
            &&& cm.ctexture@[id].size == (10u32, 10u32)
            &&& cm.ctexture@[id].color == Color::spec_white()
            &&& cm.ctexture@.remove(id) == cm0.ctexture@.remove(id)
            &&& cm.cpaddle_info@ == cm0.cpaddle_info@
            &&& cm.cbutton_info@ == cm0.cbutton_info@
            &&& cm.ctext@ == cm0.ctext@
        }),
{
    let id = cmanager.id_allocator.get_number();

    let name = "ball";

    let collision_2d = CCollision2D { id, name: name.to_owned(), size: (10, 10) };

    let (x, y) = util::random_direction();
    let movement_2d = CMovement2D { id, name: name.to_owned(), speed: 540, x, y };

    let position_2d = CPosition2D {
        id,
        name: name.to_owned(),
        pos: Point::new(START_BALL_X, START_BALL_Y),
    };

    let texture = CTexture { id, name: name.to_owned(), size: (10, 10), color: Color::white() };

    cmanager.ccollision_2d.insert(id, collision_2d);
    cmanager.cmovement_2d.insert(id, movement_2d);
    cmanager.cposition_2d.insert(id, position_2d);
    cmanager.ctexture.insert(id, texture);

    proof {
        let cm0 = *old(cmanager);
        assert(cmanager.ccollision_2d@.remove(id) =~= cm0.ccollision_2d@.remove(id));
        assert(cmanager.cmovement_2d@.remove(id) =~= cm0.cmovement_2d@.remove(id));
        assert(cmanager.cposition_2d@.remove(id) =~= cm0.cposition_2d@.remove(id));
        assert(cmanager.ctexture@.remove(id) =~= cm0.ctexture@.remove(id));
    }
}

/// Whether `k` keys a position record whose stored name is "ball" up
/// to ASCII case: the mark other systems find the ball by.
pub open spec fn is_ball_key(cm: ComponentManager, k: usize) -> bool {
    cm.cposition_2d@.contains_key(k) && eq_ignore_case(cm.cposition_2d@[k].name@, "ball"@)
}

/// Whether some entity is named "ball".
pub open spec fn ball_exists(cm: ComponentManager) -> bool {
    exists|k: usize| is_ball_key(cm, k)
}

/// Finds the entity named "ball" (ASCII-case-insensitively) by
/// scanning the position table and reports that record's stored id;
/// which matching entity is reported is unspecified when several
/// carry the name.
pub fn get_ball_id(cmanager: &ComponentManager) -> (r: Option<usize>)
    ensures
        match r {
            Some(id) => exists|k: usize|
                #[trigger] is_ball_key(*cmanager, k) && cmanager.cposition_2d@[k].id == id,
            None => !ball_exists(*cmanager),
        },
{
    let mut ball_id: Option<usize> = None;

    let keys = cmanager.cposition_2d.keys();
    let n = keys.len();
    let mut i: usize = 0;
    while i < n
        invariant
            n == keys@.len(),
            i <= n,
            keys@.to_set() == cmanager.cposition_2d@.dom(),
            match ball_id {
                Some(id) => exists|k: usize|
                    #[trigger] is_ball_key(*cmanager, k) && cmanager.cposition_2d@[k].id == id,
                None => forall|j: int|
                    0 <= j < i ==> !eq_ignore_case(
                        cmanager.cposition_2d@[#[trigger] keys@[j]].name@,
                        "ball"@,
                    ),
            },
        decreases n - i,
    {
        let key = keys[i];
        proof {
            assert(keys@.contains(keys@[i as int]));
            assert(keys@.to_set().contains(key));
        }
        let component = cmanager.cposition_2d.get(&key).unwrap();
        let (pos_id, name) = component.get_info();
        if eq_ignore_ascii_case_str(name, "ball") {
            ball_id = Some(pos_id);
            proof {
                assert(is_ball_key(*cmanager, key));
            }
        }
        i += 1;
    }
    proof {
        if ball_id is None {
            assert forall|k: usize| #[trigger] cmanager.cposition_2d@.contains_key(
                k,
            ) implies !eq_ignore_case(cmanager.cposition_2d@[k].name@, "ball"@) by {
                assert(keys@.to_set().contains(k));
                let j = choose|j: int| 0 <= j < keys@.len() && keys@[j] == k;
                assert(!eq_ignore_case(cmanager.cposition_2d@[keys@[j]].name@, "ball"@));
            }
            assert(!ball_exists(*cmanager));
        }
    }
    ball_id
}

} // verus!
