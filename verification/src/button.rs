//! The button: the factory that builds one clickable, labeled entity.

use vstd::prelude::*;
use crate::componentmanager::ComponentManager;
use crate::components::{CButtonInfo, CCollision2D, CPosition2D, CText, CTexture};
use crate::gamestate::ButtonAction;
use crate::geometry::{Color, Point, Rect};

verus! {

/// Builds one button entity covering `rect`: a filled rectangle in
/// `color`, a collision box of the same size for click detection, the
/// label `text` (stored at size 72, black, no offset), and the action
/// a qualifying click requests; `callback` may be absent, making
/// clicks a no-op.
pub fn create(
    cmanager: &mut ComponentManager,
    name: &str,
    rect: Rect,
    color: Color,
    text: &str,
    callback: Option<ButtonAction>,
)
    requires
        old(cmanager).id_allocator.inv(),
        old(cmanager).id_allocator.model().next < usize::MAX,
    ensures
        ({
            let id = old(cmanager).id_allocator.model().alloc_choice();
            let cm = *final(cmanager);
            let cm0 = *old(cmanager);
            &&& cm.id_allocator.model() == cm0.id_allocator.model().after_alloc()
            &&& cm.id_allocator.inv()
            &&& cm.ccollision_2d@.contains_key(id)
            &&& cm.ccollision_2d@[id].id == id
            &&& cm.ccollision_2d@[id].name@ == name@
            &&& cm.ccollision_2d@[id].size == (rect.w, rect.h)
            &&& cm.ccollision_2d@.remove(id) == cm0.ccollision_2d@.remove(id)
            &&& cm.cposition_2d@.contains_key(id)
            &&& cm.cposition_2d@[id].id == id
            &&& cm.cposition_2d@[id].name@ == name@
            &&& cm.cposition_2d@[id].pos == (Point { x: rect.cx, y: rect.cy })
            &&& cm.cposition_2d@.remove(id) == cm0.cposition_2d@.remove(id)
            &&& cm.ctexture@.contains_key(id)
            &&& cm.ctexture@[id].id == id
            &&& cm.ctexture@[id].name@ == name@
            &&& cm.ctexture@[id].size == (rect.w, rect.h)
            &&& cm.ctexture@[id].color == color
            &&& cm.ctexture@.remove(id) == cm0.ctexture@.remove(id)
            &&& cm.cbutton_info@.contains_key(id)
            &&& cm.cbutton_info@[id].id == id
            &&& cm.cbutton_info@[id].name@ == name@
            &&& cm.cbutton_info@[id].text@ == text@
            &&& cm.cbutton_info@[id].callback == callback
            &&& cm.cbutton_info@.remove(id) == cm0.cbutton_info@.remove(id)
            &&& cm.ctext@.contains_key(id)
            &&& cm.ctext@[id].id == id
            &&& cm.ctext@[id].name@ == name@
            &&& cm.ctext@[id].text@ == text@
            &&& cm.ctext@[id].size == 72u32
            &&& cm.ctext@[id].offset == (Point { x: 0, y: 0 })
            &&& cm.ctext@[id].color == Color::spec_black()
            &&& cm.ctext@.remove(id) == cm0.ctext@.remove(id)
            &&& cm.cmovement_2d@ == cm0.cmovement_2d@
            &&& cm.cpaddle_info@ == cm0.cpaddle_info@
        }),
{
    let id = cmanager.id_allocator.get_number();

    let collision_2d = CCollision2D { id, name: name.to_owned(), size: (rect.w, rect.h) };

    let texture = CTexture { id, name: name.to_owned(), size: (rect.w, rect.h), color };

    let position_2d = CPosition2D {
        id,
        name: name.to_owned(),
        pos: Point::new(rect.cx, rect.cy),
    };

    let button_info = CButtonInfo { id, name: name.to_owned(), text: text.to_owned(), callback };

    let text_component = CText {
        id,
        name: name.to_owned(),
        text: text.to_owned(),
        size: 72,
        offset: Point::new(0, 0),
        color: Color::black(),
    };

    cmanager.ccollision_2d.insert(id, collision_2d);
    cmanager.cposition_2d.insert(id, position_2d);
    cmanager.ctexture.insert(id, texture);
    cmanager.cbutton_info.insert(id, button_info);
    cmanager.ctext.insert(id, text_component);

    proof {
        let cm0 = *old(cmanager);
        assert(cmanager.ccollision_2d@.remove(id) =~= cm0.ccollision_2d@.remove(id));
        assert(cmanager.cposition_2d@.remove(id) =~= cm0.cposition_2d@.remove(id));
        assert(cmanager.ctexture@.remove(id) =~= cm0.ctexture@.remove(id));
        assert(cmanager.cbutton_info@.remove(id) =~= cm0.cbutton_info@.remove(id));
        assert(cmanager.ctext@.remove(id) =~= cm0.ctext@.remove(id));
    }
}

} // verus!
