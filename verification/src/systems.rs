//! The per-frame systems: ball movement with wall and paddle
//! collisions, paddle movement (AI and human), button input, texture
//! and text rendering, and scoring. Rendering systems emit draw
//! commands; performing them is the backend's business.

use vstd::prelude::*;
use vstd::string::StringExecFns;
use crate::ball;
use crate::componentmanager::ComponentManager;
use crate::components::{CCollision2D, CMovement2D, CPaddleInfo, CPosition2D};
use crate::gamestate::ButtonAction;
use crate::geometry::{Color, Point, Rect};
use crate::paddle::Direction;
use crate::util;
use crate::util::{EventRunner, GameEvent, KeyCode, MouseBtn};

verus! {

/// One rendering primitive of a frame, listed in draw order: a filled
/// rectangle, or text rasterized in a font and blitted centered at a
/// position.
#[derive(Debug, PartialEq, Eq)]
pub enum DrawCmd {
    FillRect { rect: Rect, color: Color },
    Text { content: String, pos: Point, font: String, size: u16, color: Color },
}

/// An integer clamped into `i32` range; out-of-range motion saturates
/// at the playfield's representable edge.
pub open spec fn clamp_i32(v: int) -> int {
    if v < i32::MIN as int {
        i32::MIN as int
    } else if v > i32::MAX as int {
        i32::MAX as int
    } else {
        v
    }
}

fn clamp_to_i32(v: i64) -> (r: i32)
    ensures
        r as int == clamp_i32(v as int),
{
    if v < i32::MIN as i64 {
        i32::MIN
    } else if v > i32::MAX as i64 {
        i32::MAX
    } else {
        v as i32
    }
}

/// `dir * d` exactly, for a direction in {-1, 0, 1}.
fn dir_times(dir: i32, d: u64) -> (r: i64)
    requires
        -1 <= dir <= 1,
        d <= 0x4000_0000_0000_0000,
    ensures
        r == dir * d,
        -0x4000_0000_0000_0000 <= r <= 0x4000_0000_0000_0000,
{
    proof {
        assert(-0x4000_0000_0000_0000 <= (dir as int) * (d as int) <= 0x4000_0000_0000_0000)
            by (nonlinear_arith)
            requires
                -1 <= dir as int <= 1,
                0 <= d as int <= 0x4000_0000_0000_0000,
        ;
    }
    (dir as i64) * (d as i64)
}

fn add_clamped(base: i32, delta: i64) -> (r: i32)
    requires
        -0x4000_0000_0000_0000 <= delta <= 0x4000_0000_0000_0000,
    ensures
        r as int == clamp_i32(base + delta),
{
    clamp_to_i32(base as i64 + delta)
}

/// Whole pixels covered in `dt_ms` milliseconds at `speed` px/sec,
/// truncated toward zero.
pub open spec fn spec_displacement(speed: u32, dt_ms: u32) -> int {
    (speed as int * dt_ms as int) / 1000
}

fn displacement(speed: u32, dt_ms: u32) -> (d: u64)
    ensures
        d as int == spec_displacement(speed, dt_ms),
        d <= 0x4000_0000_0000_0000,
{
    proof {
        assert((speed as int) * (dt_ms as int) <= 0xffff_ffff * 0xffff_ffff) by (nonlinear_arith)
            requires
                speed <= 0xffff_ffffu32,
                dt_ms <= 0xffff_ffffu32,
        ;
    }
    (speed as u64) * (dt_ms as u64) / 1000
}

/// The vertical coordinate after the playfield's edge rule: a box of
/// height `h` centered at `py` is pushed back so its top edge sits at
/// 0 or its bottom edge at `height` when it crossed either one.
pub open spec fn wall_clamped_y(py: int, h: u32, height: u32) -> int {
    let top = py - h as int / 2;
    let bottom = top + h as int;
    if top < 0 {
        h as int / 2
    } else if bottom > height as int {
        clamp_i32(height as int - h as int / 2)
    } else {
        py
    }
}

/// Whether the edge rule fired (the ball inverts its vertical
/// direction exactly then).
pub open spec fn wall_bounced(py: int, h: u32, height: u32) -> bool {
    let top = py - h as int / 2;
    let bottom = top + h as int;
    top < 0 || bottom > height as int
}

fn wall_clamp(py: i32, h: u32, height: u32) -> (r: (i32, bool))
    ensures
        r.0 as int == wall_clamped_y(py as int, h, height),
        r.1 == wall_bounced(py as int, h, height),
{
    let top: i64 = py as i64 - (h / 2) as i64;
    let bottom: i64 = top + h as i64;
    if top < 0 {
        ((h / 2) as i32, true)
    } else if bottom > height as i64 {
        (clamp_to_i32(height as i64 - (h / 2) as i64), true)
    } else {
        (py, false)
    }
}

/// Whether `id` has both a texture and a position, so the texture
/// renderer draws it.
pub open spec fn has_texture(cm: ComponentManager, id: usize) -> bool {
    cm.ctexture@.contains_key(id) && cm.cposition_2d@.contains_key(id)
}

/// The filled rectangle drawn for `id`: the texture's size and color,
/// centered at the entity's position.
pub open spec fn fill_rect_cmd(cm: ComponentManager, id: usize) -> DrawCmd {
    DrawCmd::FillRect {
        rect: Rect {
            cx: cm.cposition_2d@[id].pos.x,
            cy: cm.cposition_2d@[id].pos.y,
            w: cm.ctexture@[id].size.0,
            h: cm.ctexture@[id].size.1,
        },
        color: cm.ctexture@[id].color,
    }
}

/// The predicate form of `has_texture`, for filtering id sequences.
pub open spec fn has_texture_pred(cm: ComponentManager) -> spec_fn(usize) -> bool {
    |id: usize| has_texture(cm, id)
}

/// Whether `id` has both a text label and a position, so the text
/// renderer draws it.
pub open spec fn has_text(cm: ComponentManager, id: usize) -> bool {
    cm.ctext@.contains_key(id) && cm.cposition_2d@.contains_key(id)
}

/// The predicate form of `has_text`, for filtering id sequences.
pub open spec fn has_text_pred(cm: ComponentManager) -> spec_fn(usize) -> bool {
    |id: usize| has_text(cm, id)
}

/// The text blit drawn for an entity's label: its stored content at
/// the entity's position, always in font "arial" at size 36, black.
pub open spec fn text_cmd_ok(cm: ComponentManager, id: usize, cmd: DrawCmd) -> bool {
    &&& cmd matches DrawCmd::Text { content, pos, font, size, color }
    &&& content == cm.ctext@[id].text
    &&& pos == cm.cposition_2d@[id].pos
    &&& font@ == "arial"@
    &&& size == 36u16
    &&& color == Color::spec_black()
}

/// Renders every entity that has a texture and a position as a filled
/// rectangle, in allocation order.
pub struct SysRenderTexture {}

impl SysRenderTexture {
    pub fn new() -> (s: SysRenderTexture) {
        SysRenderTexture {}
    }

    /// The draw command for one entity, or nothing when it lacks a
    /// texture or a position.
    pub fn render(&self, cmanager: &ComponentManager, id: usize) -> (r: Option<DrawCmd>)
        ensures
            r == if has_texture(*cmanager, id) {
                Some(fill_rect_cmd(*cmanager, id))
            } else {
                Option::<DrawCmd>::None
            },
    {
        if let Some(texture) = cmanager.ctexture.get(&id) {
            if let Some(position) = cmanager.cposition_2d.get(&id) {
                let draw_area = Rect::from_center(position.pos, texture.size.0, texture.size.1);
                return Some(DrawCmd::FillRect { rect: draw_area, color: texture.color });
            }
        }
        None
    }

    /// One command per allocated entity that has texture and position,
    /// in allocation order.
    pub fn execute(&self, cmanager: &ComponentManager) -> (cmds: Vec<DrawCmd>)
        ensures
            ({
                let drawn = cmanager.id_allocator.model().allocated.filter(
                    has_texture_pred(*cmanager),
                );
                &&& cmds@.len() == drawn.len()
                &&& forall|j: int|
                    0 <= j < drawn.len() ==> cmds@[j] == fill_rect_cmd(*cmanager, drawn[j])
            }),
    {
        let ids = util::get_allocated_ids(cmanager);
        let ghost all = cmanager.id_allocator.model().allocated;
        let ghost pred = has_texture_pred(*cmanager);
        let n = ids.len();
        let mut cmds: Vec<DrawCmd> = Vec::new();
        let mut i: usize = 0;
        while i < n
            invariant
                n == ids@.len(),
                ids@ == all,
                i <= n,
                pred == has_texture_pred(*cmanager),
                cmds@.len() == all.take(i as int).filter(pred).len(),
                forall|j: int|
                    0 <= j < cmds@.len() ==> cmds@[j] == fill_rect_cmd(
                        *cmanager,
                        all.take(i as int).filter(pred)[j],
                    ),
            decreases n - i,
        {
            proof {
                reveal(Seq::filter);
                assert(all.take(i + 1 as int).drop_last() =~= all.take(i as int));
                assert(all.take(i + 1 as int).last() == all[i as int]);
            }
            if let Some(cmd) = self.render(cmanager, ids[i]) {
                cmds.push(cmd);
            }
            i += 1;
        }
        proof {
            assert(all.take(n as int) =~= all);
        }
        cmds
    }
}

/// Renders every entity that has a text label and a position through
/// the font pipeline, fixed at font "arial", size 36, black.
pub struct SysRenderText {}

impl SysRenderText {
    pub fn new() -> (s: SysRenderText) {
        SysRenderText {}
    }

    /// The text blit for one entity, or nothing when it lacks a label
    /// or a position.
    pub fn render(&self, cmanager: &ComponentManager, id: usize) -> (r: Option<DrawCmd>)
        ensures
            has_text(*cmanager, id) ==> (r matches Some(cmd) && text_cmd_ok(*cmanager, id, cmd)),
            !has_text(*cmanager, id) ==> r is None,
    {
        if let Some(text) = cmanager.ctext.get(&id) {
            if let Some(position) = cmanager.cposition_2d.get(&id) {
                return Some(
                    DrawCmd::Text {
                        content: text.text.clone(),
                        pos: position.pos,
                        font: "arial".to_owned(),
                        size: 36,
                        color: Color::black(),
                    },
                );
            }
        }
        None
    }

    /// One text command per allocated entity that has a label and a
    /// position, in allocation order.
    pub fn execute(&self, cmanager: &ComponentManager) -> (cmds: Vec<DrawCmd>)
        ensures
            ({
                let drawn = cmanager.id_allocator.model().allocated.filter(
                    has_text_pred(*cmanager),
                );
                &&& cmds@.len() == drawn.len()
                &&& forall|j: int|
                    0 <= j < drawn.len() ==> text_cmd_ok(*cmanager, drawn[j], #[trigger] cmds@[j])
            }),
    {
        let ids = util::get_allocated_ids(cmanager);
        let ghost all = cmanager.id_allocator.model().allocated;
        let ghost pred = has_text_pred(*cmanager);
        let n = ids.len();
        let mut cmds: Vec<DrawCmd> = Vec::new();
        let mut i: usize = 0;
        while i < n
            invariant
                n == ids@.len(),
                ids@ == all,
                i <= n,
                pred == has_text_pred(*cmanager),
                cmds@.len() == all.take(i as int).filter(pred).len(),
                forall|j: int|
                    0 <= j < cmds@.len() ==> text_cmd_ok(
                        *cmanager,
                        all.take(i as int).filter(pred)[j],
                        #[trigger] cmds@[j],
                    ),
            decreases n - i,
        {
            proof {
                reveal(Seq::filter);
                assert(all.take(i + 1 as int).drop_last() =~= all.take(i as int));
                assert(all.take(i + 1 as int).last() == all[i as int]);
            }
            if let Some(cmd) = self.render(cmanager, ids[i]) {
                cmds.push(cmd);
            }
            i += 1;
        }
        proof {
            assert(all.take(n as int) =~= all);
        }
        cmds
    }
}

/// Whether an event is a left-mouse press inside `rect` (containment
/// is inclusive of the edges).
pub open spec fn is_click_inside(ev: GameEvent, rect: Rect) -> bool {
    match ev {
        GameEvent::MouseButtonDown { mouse_btn: MouseBtn::Left, x, y } => rect.spec_contains(
            x as int,
            y as int,
        ),
        _ => false,
    }
}

/// The actions one button emits for a frame's events, in order: one
/// per qualifying click when the button carries an action, none when
/// it carries none.
pub open spec fn click_actions(
    events: Seq<GameEvent>,
    rect: Rect,
    callback: Option<ButtonAction>,
) -> Seq<ButtonAction>
    decreases events.len(),
{
    if events.len() == 0 {
        Seq::empty()
    } else {
        click_actions(events.drop_last(), rect, callback) + (if is_click_inside(
            events.last(),
            rect,
        ) {
            match callback {
                Some(a) => seq![a],
                None => Seq::<ButtonAction>::empty(),
            }
        } else {
            Seq::<ButtonAction>::empty()
        })
    }
}

/// Detects clicks on button entities and emits the actions their
/// callbacks request; a click on a button with no callback is a
/// tolerated no-op.
pub struct SysButtonInput {}

impl SysButtonInput {
    pub fn new() -> (s: SysButtonInput) {
        SysButtonInput {}
    }

    /// The actions entity `id` emits for this frame's buffered events:
    /// empty unless `id` is a button; else one action per left-mouse
    /// press inside its collision box, in event order, provided the
    /// button carries an action.
    pub fn handle_input(
        &self,
        cmanager: &ComponentManager,
        id: usize,
        event_runner: &EventRunner,
    ) -> (actions: Vec<ButtonAction>)
        requires
            cmanager.cbutton_info@.contains_key(id) ==> cmanager.cposition_2d@.contains_key(id)
                && cmanager.ccollision_2d@.contains_key(id),
        ensures
            ({
                if cmanager.cbutton_info@.contains_key(id) {
                    let rect = Rect {
                        cx: cmanager.cposition_2d@[id].pos.x,
                        cy: cmanager.cposition_2d@[id].pos.y,
                        w: cmanager.ccollision_2d@[id].size.0,
                        h: cmanager.ccollision_2d@[id].size.1,
                    };
                    actions@ == click_actions(
                        event_runner.event_list@,
                        rect,
                        cmanager.cbutton_info@[id].callback,
                    )
                } else {
                    actions@ == Seq::<ButtonAction>::empty()
                }
            }),
    {
        let mut actions: Vec<ButtonAction> = Vec::new();

        if cmanager.cbutton_info.get(&id).is_none() {
            return actions;
        }

        let button_info = cmanager.cbutton_info.get(&id).unwrap();
        let pos = cmanager.cposition_2d.get(&id).unwrap();
        let collision = cmanager.ccollision_2d.get(&id).unwrap();

        let button_rect = Rect::from_center(pos.pos, collision.size.0, collision.size.1);
        let ghost events = event_runner.event_list@;
        let n = event_runner.event_list.len();
        let mut i: usize = 0;
        while i < n
            invariant
                n == events.len(),
                event_runner.event_list@ == events,
                i <= n,
                cmanager.cbutton_info@.contains_key(id),
                button_info == cmanager.cbutton_info@[id],
                button_rect == (Rect {
                    cx: cmanager.cposition_2d@[id].pos.x,
                    cy: cmanager.cposition_2d@[id].pos.y,
                    w: cmanager.ccollision_2d@[id].size.0,
                    h: cmanager.ccollision_2d@[id].size.1,
                }),
                actions@ == click_actions(events.take(i as int), button_rect, button_info.callback),
            decreases n - i,
        {
            proof {
                assert(events.take(i + 1 as int).drop_last() =~= events.take(i as int));
                assert(events.take(i + 1 as int).last() == events[i as int]);
            }
            let event = event_runner.event_list[i];
            match event {
                GameEvent::MouseButtonDown { mouse_btn: MouseBtn::Left, x, y } => {
                    if button_rect.contains_point(Point::new(x, y)) {
                        if let Some(action) = button_info.callback {
                            actions.push(action);
                        }
                    }
                },
                _ => {},
            }
            i += 1;
        }
        proof {
            assert(events.take(n as int) =~= events);
        }
        actions
    }

    /// The actions of every allocated entity, concatenated in
    /// allocation order.
    pub fn execute(&self, cmanager: &ComponentManager, event_runner: &EventRunner) -> (actions: Vec<
        ButtonAction,
    >)
        requires
            forall|id: usize|
                #[trigger] cmanager.cbutton_info@.contains_key(id)
                    ==> cmanager.cposition_2d@.contains_key(id)
                    && cmanager.ccollision_2d@.contains_key(id),
        ensures
            actions@ == all_button_actions(
                *cmanager,
                cmanager.id_allocator.model().allocated,
                event_runner.event_list@,
            ),
    {
        let ids = util::get_allocated_ids(cmanager);
        let ghost all = cmanager.id_allocator.model().allocated;
        let n = ids.len();
        let mut actions: Vec<ButtonAction> = Vec::new();
        let mut i: usize = 0;
        while i < n
            invariant
                n == ids@.len(),
                ids@ == all,
                i <= n,
                forall|id: usize|
                    #[trigger] cmanager.cbutton_info@.contains_key(id)
                        ==> cmanager.cposition_2d@.contains_key(id)
                        && cmanager.ccollision_2d@.contains_key(id),
                actions@ == all_button_actions(
                    *cmanager,
                    all.take(i as int),
                    event_runner.event_list@,
                ),
            decreases n - i,
        {
            proof {
                assert(all.take(i + 1 as int).drop_last() =~= all.take(i as int));
                assert(all.take(i + 1 as int).last() == all[i as int]);
            }
            let mut a = self.handle_input(cmanager, ids[i], event_runner);
            actions.append(&mut a);
            i += 1;
        }
        proof {
            assert(all.take(n as int) =~= all);
        }
        actions
    }
}

/// The collision box of an entity, from its position and collision
/// records.
pub open spec fn entity_box(p: CPosition2D, c: CCollision2D) -> Rect {
    Rect { cx: p.pos.x, cy: p.pos.y, w: c.size.0, h: c.size.1 }
}

/// The paddles whose boxes overlap `ball_rect`: the ball's horizontal
/// direction flips once per member, so an odd count inverts it.
pub open spec fn hit_pred(
    positions: Map<usize, CPosition2D>,
    collisions: Map<usize, CCollision2D>,
    ball_rect: Rect,
) -> spec_fn(usize) -> bool {
    |pid: usize|
        positions.contains_key(pid) && collisions.contains_key(pid) && entity_box(
            positions[pid],
            collisions[pid],
        ).spec_intersects(ball_rect)
}

/// See `hit_pred`.
pub open spec fn paddle_hits(
    paddles: Map<usize, CPaddleInfo>,
    positions: Map<usize, CPosition2D>,
    collisions: Map<usize, CCollision2D>,
    ball_rect: Rect,
) -> Set<usize> {
    paddles.dom().filter(hit_pred(positions, collisions, ball_rect))
}

spec fn seq_count(ids: Seq<usize>, pred: spec_fn(usize) -> bool) -> int
    decreases ids.len(),
{
    if ids.len() == 0 {
        0
    } else {
        seq_count(ids.drop_last(), pred) + if pred(ids.last()) {
            1int
        } else {
            0int
        }
    }
}

proof fn lemma_seq_count_to_set(ids: Seq<usize>, pred: spec_fn(usize) -> bool)
    requires
        ids.no_duplicates(),
    ensures
        seq_count(ids, pred) == ids.to_set().filter(pred).len(),
        ids.to_set().finite(),
    decreases ids.len(),
{
    broadcast use vstd::seq_lib::seq_to_set_is_finite;

    if ids.len() == 0 {
        assert(ids.to_set() =~= Set::<usize>::empty());
        assert(ids.to_set().filter(pred) =~= Set::<usize>::empty());
    } else {
        let dl = ids.drop_last();
        let x = ids.last();
        assert(dl.no_duplicates()) by {
            assert(forall|a: int| 0 <= a < dl.len() ==> #[trigger] dl[a] == ids[a]);
        }
        lemma_seq_count_to_set(dl, pred);
        assert(!dl.contains(x)) by {
            if dl.contains(x) {
                let k = choose|k: int| 0 <= k < dl.len() && dl[k] == x;
                assert(ids[k] == ids[ids.len() - 1]);
            }
        }
        assert(ids.to_set() =~= dl.to_set().insert(x)) by {
            assert forall|y: usize| ids.to_set().contains(y) implies dl.to_set().insert(
                x,
            ).contains(y) by {
                let k = choose|k: int| 0 <= k < ids.len() && ids[k] == y;
                if k < ids.len() - 1 {
                    assert(dl[k] == y);
                }
            }
            assert forall|y: usize| dl.to_set().insert(x).contains(y) implies ids.to_set().contains(
                y,
            ) by {
                if dl.to_set().contains(y) {
                    let k = choose|k: int| 0 <= k < dl.len() && dl[k] == y;
                    assert(ids[k] == y);
                } else {
                    assert(ids[ids.len() - 1] == y);
                }
            }
        }
        dl.to_set().lemma_len_filter(pred);
        if pred(x) {
            assert(ids.to_set().filter(pred) =~= dl.to_set().filter(pred).insert(x));
            assert(!dl.to_set().filter(pred).contains(x));
        } else {
            assert(ids.to_set().filter(pred) =~= dl.to_set().filter(pred));
        }
    }
}

/// The whole effect of one ball-movement step on the store: nothing
/// when the ball lacks position, movement or collision; else the
/// displaced, wall-corrected position and the direction after the
/// wall bounce and the per-paddle horizontal flips.
/// Where the ball sits after displacement and the wall rule, before
/// paddle collisions are tested.
pub open spec fn ball_step_pos(cm0: ComponentManager, ball_id: usize, dt_ms: u32, height: u32) -> Point {
    let p0 = cm0.cposition_2d@[ball_id];
    let m0 = cm0.cmovement_2d@[ball_id];
    let c0 = cm0.ccollision_2d@[ball_id];
    let d = spec_displacement(m0.speed, dt_ms);
    let nx = clamp_i32(p0.pos.x + m0.x * d) as i32;
    let ny = clamp_i32(p0.pos.y + m0.y * d) as i32;
    let fy = wall_clamped_y(ny as int, c0.size.1, height) as i32;
    Point { x: nx, y: fy }
}

/// The ball's collision box at `ball_step_pos`, the one tested
/// against every paddle.
pub open spec fn ball_step_rect(cm0: ComponentManager, ball_id: usize, dt_ms: u32, height: u32) -> Rect {
    let c0 = cm0.ccollision_2d@[ball_id];
    let p = ball_step_pos(cm0, ball_id, dt_ms, height);
    Rect { cx: p.x, cy: p.y, w: c0.size.0, h: c0.size.1 }
}

pub open spec fn ball_move_effect(
    cm0: ComponentManager,
    cm1: ComponentManager,
    ball_id: usize,
    dt_ms: u32,
    height: u32,
) -> bool {
    if !(cm0.cposition_2d@.contains_key(ball_id) && cm0.cmovement_2d@.contains_key(ball_id)
        && cm0.ccollision_2d@.contains_key(ball_id)) {
        cm1 == cm0
    } else {
        let p0 = cm0.cposition_2d@[ball_id];
        let m0 = cm0.cmovement_2d@[ball_id];
        let c0 = cm0.ccollision_2d@[ball_id];
        let d = spec_displacement(m0.speed, dt_ms);
        let nx = ball_step_pos(cm0, ball_id, dt_ms, height).x;
        let ny = clamp_i32(p0.pos.y + m0.y * d) as i32;
        let fy = ball_step_pos(cm0, ball_id, dt_ms, height).y;
        let vflip = wall_bounced(ny as int, c0.size.1, height);
        let ball_rect = ball_step_rect(cm0, ball_id, dt_ms, height);
        let positions1 = cm0.cposition_2d@.insert(
            ball_id,
            CPosition2D { id: p0.id, name: p0.name, pos: Point { x: nx, y: fy } },
        );
        let hits = paddle_hits(cm0.cpaddle_info@, positions1, cm0.ccollision_2d@, ball_rect);
        let fx: int = if hits.len() % 2 == 1 {
            -m0.x
        } else {
            m0.x as int
        };
        let fyd: int = if vflip {
            -m0.y
        } else {
            m0.y as int
        };
        &&& cm1.cposition_2d@ == positions1
        &&& cm1.cmovement_2d@ == cm0.cmovement_2d@.insert(
            ball_id,
            CMovement2D { id: m0.id, name: m0.name, speed: m0.speed, x: fx as i32, y: fyd as i32 },
        )
        &&& cm1.ccollision_2d@ == cm0.ccollision_2d@
        &&& cm1.cpaddle_info@ == cm0.cpaddle_info@
        &&& cm1.ctexture@ == cm0.ctexture@
        &&& cm1.cbutton_info@ == cm0.cbutton_info@
        &&& cm1.ctext@ == cm0.ctext@
        &&& cm1.id_allocator == cm0.id_allocator
    }
}

/// One ball-movement step keeps the tables' domains, every stored
/// name and id, direction validity, and every table the step does not
/// touch.
proof fn lemma_ball_move_preserves(
    cm0: ComponentManager,
    cm1: ComponentManager,
    ball_id: usize,
    dt_ms: u32,
    height: u32,
)
    requires
        ball_move_effect(cm0, cm1, ball_id, dt_ms, height),
        cm0.cmovement_2d@.contains_key(ball_id) ==> cm0.cmovement_2d@[ball_id].dir_valid(),
    ensures
        cm1.cposition_2d@.dom() == cm0.cposition_2d@.dom(),
        cm1.cmovement_2d@.dom() == cm0.cmovement_2d@.dom(),
        cm1.ccollision_2d@ == cm0.ccollision_2d@,
        cm1.cpaddle_info@ == cm0.cpaddle_info@,
        cm1.ctexture@ == cm0.ctexture@,
        cm1.cbutton_info@ == cm0.cbutton_info@,
        cm1.ctext@ == cm0.ctext@,
        cm1.id_allocator == cm0.id_allocator,
        forall|q: usize| #[trigger]
            cm1.cposition_2d@.contains_key(q) ==> cm1.cposition_2d@[q].name@
                == cm0.cposition_2d@[q].name@ && cm1.cposition_2d@[q].id
                == cm0.cposition_2d@[q].id,
        forall|q: usize| #[trigger]
            cm1.cmovement_2d@.contains_key(q) ==> cm1.cmovement_2d@[q].name@
                == cm0.cmovement_2d@[q].name@ && cm1.cmovement_2d@[q].id
                == cm0.cmovement_2d@[q].id && cm1.cmovement_2d@[q].speed
                == cm0.cmovement_2d@[q].speed && (cm0.cmovement_2d@[q].dir_valid()
                ==> cm1.cmovement_2d@[q].dir_valid()),
        ball_lookup_consistent(cm0) ==> ball_lookup_consistent(cm1),
{
    if cm0.cposition_2d@.contains_key(ball_id) && cm0.cmovement_2d@.contains_key(ball_id)
        && cm0.ccollision_2d@.contains_key(ball_id) {
        assert(cm1.cposition_2d@.dom() =~= cm0.cposition_2d@.dom());
        assert(cm1.cmovement_2d@.dom() =~= cm0.cmovement_2d@.dom());
    }
    if ball_lookup_consistent(cm0) {
        assert forall|k: usize| #[trigger] ball::is_ball_key(cm1, k) implies
            cm1.cposition_2d@.contains_key(cm1.cposition_2d@[k].id) by {
            assert(cm0.cposition_2d@.contains_key(k));
            assert(cm1.cposition_2d@[k].name@ == cm0.cposition_2d@[k].name@);
            assert(ball::is_ball_key(cm0, k));
            assert(cm1.cposition_2d@[k].id == cm0.cposition_2d@[k].id);
            assert(cm0.cposition_2d@.contains_key(cm0.cposition_2d@[k].id));
        }
    }
}

/// Advances the ball and resolves wall and paddle collisions, once per
/// frame.
pub struct SysBallMovement {}

impl SysBallMovement {
    pub fn new() -> (s: SysBallMovement) {
        SysBallMovement {}
    }

    /// One ball-movement step for `ball_id` over `dt_ms` milliseconds
    /// against a playfield of the given height; a ball missing any of
    /// its three records is skipped.
    pub fn move_ball(&self, cmanager: &mut ComponentManager, ball_id: usize, dt_ms: u32, height: u32)
        requires
            old(cmanager).cmovement_2d@.contains_key(ball_id) ==> old(cmanager).cmovement_2d@[ball_id].dir_valid(),
        ensures
            ball_move_effect(*old(cmanager), *final(cmanager), ball_id, dt_ms, height),
    {
        let position = cmanager.cposition_2d.get(&ball_id);
        let movement = cmanager.cmovement_2d.get(&ball_id);
        let collision = cmanager.ccollision_2d.get(&ball_id);

        if position.is_none() || movement.is_none() || collision.is_none() {
            return ;
        }

        let position = cmanager.cposition_2d.get(&ball_id).unwrap();
        let movement = cmanager.cmovement_2d.get(&ball_id).unwrap();
        let collision = cmanager.ccollision_2d.get(&ball_id).unwrap();

        let p0 = position.pos;
        let pid = position.id;
        let pname = position.name.clone();
        let dx = movement.x;
        let dy = movement.y;
        let speed = movement.speed;
        let mid = movement.id;
        let mname = movement.name.clone();
        let w = collision.size.0;
        let h = collision.size.1;

        let d = displacement(speed, dt_ms);
        let nx = add_clamped(p0.x, dir_times(dx, d));
        let ny = add_clamped(p0.y, dir_times(dy, d));

        let (fy, vflip) = wall_clamp(ny, h, height);

        cmanager.cposition_2d.insert(
            ball_id,
            CPosition2D { id: pid, name: pname, pos: Point::new(nx, fy) },
        );

        let ball_rect = Rect::from_center(Point::new(nx, fy), w, h);

        let ghost pred = hit_pred(cmanager.cposition_2d@, cmanager.ccollision_2d@, ball_rect);
        let keys = cmanager.cpaddle_info.keys();
        let n = keys.len();
        let mut flip = false;
        let mut i: usize = 0;
        while i < n
            invariant
                n == keys@.len(),
                i <= n,
                pred == hit_pred(cmanager.cposition_2d@, cmanager.ccollision_2d@, ball_rect),
                flip == (seq_count(keys@.take(i as int), pred) % 2 == 1),
            decreases n - i,
        {
            proof {
                assert(keys@.take(i + 1 as int).drop_last() =~= keys@.take(i as int));
                assert(keys@.take(i + 1 as int).last() == keys@[i as int]);
            }
            let pid = keys[i];
            let mut hit = false;
            if let Some(ppos) = cmanager.cposition_2d.get(&pid) {
                let pp = ppos.pos;
                if let Some(pcol) = cmanager.ccollision_2d.get(&pid) {
                    let prect = Rect::from_center(pp, pcol.size.0, pcol.size.1);
                    hit = prect.has_intersection(&ball_rect);
                }
            }
            if hit {
                flip = !flip;
            }
            proof {
                assert(hit == pred(keys@[i as int]));
            }
            i += 1;
        }

        proof {
            assert(keys@.take(n as int) =~= keys@);
            lemma_seq_count_to_set(keys@, pred);
            assert(keys@.to_set().filter(pred) == paddle_hits(
                cmanager.cpaddle_info@,
                cmanager.cposition_2d@,
                cmanager.ccollision_2d@,
                ball_rect,
            ));
        }

        let fx = if flip {
            -dx
        } else {
            dx
        };
        let fyd = if vflip {
            -dy
        } else {
            dy
        };

        cmanager.cmovement_2d.insert(
            ball_id,
            CMovement2D { id: mid, name: mname, speed, x: fx, y: fyd },
        );
    }

    /// Finds the ball by name and moves it; a frame without a ball
    /// leaves the store untouched.
    pub fn execute(&self, cmanager: &mut ComponentManager, dt_ms: u32, height: u32)
        requires
            forall|k: usize| #[trigger]
                ball::is_ball_key(*old(cmanager), k) && old(cmanager).cmovement_2d@.contains_key(
                    old(cmanager).cposition_2d@[k].id,
                ) ==> old(cmanager).cmovement_2d@[old(cmanager).cposition_2d@[k].id].dir_valid(),
            ball_lookup_consistent(*old(cmanager)),
        ensures
            !ball::ball_exists(*old(cmanager)) ==> *final(cmanager) == *old(cmanager),
            ball::ball_exists(*old(cmanager)) ==> exists|k: usize|
                #[trigger] ball::is_ball_key(*old(cmanager), k) && ball_move_effect(
                    *old(cmanager),
                    *final(cmanager),
                    old(cmanager).cposition_2d@[k].id,
                    dt_ms,
                    height,
                ),
            final(cmanager).cposition_2d@.dom() == old(cmanager).cposition_2d@.dom(),
            final(cmanager).cmovement_2d@.dom() == old(cmanager).cmovement_2d@.dom(),
            final(cmanager).ccollision_2d@ == old(cmanager).ccollision_2d@,
            final(cmanager).cpaddle_info@ == old(cmanager).cpaddle_info@,
            final(cmanager).ctexture@ == old(cmanager).ctexture@,
            final(cmanager).cbutton_info@ == old(cmanager).cbutton_info@,
            final(cmanager).ctext@ == old(cmanager).ctext@,
            final(cmanager).id_allocator == old(cmanager).id_allocator,
            forall|q: usize| #[trigger]
                final(cmanager).cposition_2d@.contains_key(q)
                    ==> final(cmanager).cposition_2d@[q].name@ == old(cmanager).cposition_2d@[q].name@ && final(cmanager).cposition_2d@[q].id == old(cmanager).cposition_2d@[q].id,
            forall|q: usize| #[trigger]
                final(cmanager).cmovement_2d@.contains_key(q)
                    ==> final(cmanager).cmovement_2d@[q].speed == old(cmanager).cmovement_2d@[q].speed && (old(cmanager).cmovement_2d@[q].dir_valid() ==> final(cmanager).cmovement_2d@[q].dir_valid()),
            ball_lookup_consistent(*final(cmanager)),
    {
        if let Some(ball_id) = ball::get_ball_id(cmanager) {
            proof {
                let k = choose|k: usize|
                    #[trigger] ball::is_ball_key(*cmanager, k) && cmanager.cposition_2d@[k].id
                        == ball_id;
                assert(cmanager.cposition_2d@.contains_key(cmanager.cposition_2d@[k].id));
            }
            self.move_ball(cmanager, ball_id, dt_ms, height);
            proof {
                lemma_ball_move_preserves(*old(cmanager), *cmanager, ball_id, dt_ms, height);
            }
        }
    }
}

/// The AI's choice from the vertical gap between ball and paddle:
/// strictly above means Up, more than one pixel below means Down,
/// anything in between means hold.
pub open spec fn ai_decision(diff: int) -> Direction {
    if diff < 0 {
        Direction::Up
    } else if diff > 1 {
        Direction::Down
    } else {
        Direction::Stationary
    }
}

/// One key event's effect on a human paddle's intent: W down is Up, S
/// down is Down, releasing either is Stationary, all else keeps the
/// intent.
pub open spec fn human_step(d: Direction, ev: GameEvent) -> Direction {
    match ev {
        GameEvent::KeyDown { keycode: KeyCode::W } => Direction::Up,
        GameEvent::KeyUp { keycode: KeyCode::W } => Direction::Stationary,
        GameEvent::KeyDown { keycode: KeyCode::S } => Direction::Down,
        GameEvent::KeyUp { keycode: KeyCode::S } => Direction::Stationary,
        _ => d,
    }
}

/// The intent after a frame's events are applied in order.
pub open spec fn human_direction(events: Seq<GameEvent>, d0: Direction) -> Direction
    decreases events.len(),
{
    if events.len() == 0 {
        d0
    } else {
        human_step(human_direction(events.drop_last(), d0), events.last())
    }
}

/// The paddle-info and position tables after paddle `id` adopts
/// `dir_new`, moves by its speed over `dt_ms`, and is stopped at the
/// playfield's edges (no direction inversion for paddles).
pub open spec fn paddle_step(
    cm0: ComponentManager,
    id: usize,
    dir_new: Direction,
    timer_new: u64,
    dt_ms: u32,
    height: u32,
) -> (Map<usize, CPaddleInfo>, Map<usize, CPosition2D>) {
    let p0 = cm0.cpaddle_info@[id];
    let pos0 = cm0.cposition_2d@[id];
    let m = cm0.cmovement_2d@[id];
    let c = cm0.ccollision_2d@[id];
    let d = spec_displacement(m.speed, dt_ms);
    let y1 = match dir_new {
        Direction::Up => clamp_i32(pos0.pos.y - d),
        Direction::Down => clamp_i32(pos0.pos.y + d),
        Direction::Stationary => pos0.pos.y as int,
    };
    let y2 = wall_clamped_y(y1, c.size.1, height);
    (
        cm0.cpaddle_info@.insert(
            id,
            CPaddleInfo {
                id: p0.id,
                name: p0.name,
                direction: dir_new,
                ai_delay_timer: timer_new,
                ai_delay: p0.ai_delay,
                is_ai: p0.is_ai,
            },
        ),
        cm0.cposition_2d@.insert(
            id,
            CPosition2D {
                id: pos0.id,
                name: pos0.name,
                pos: Point { x: pos0.pos.x, y: y2 as i32 },
            },
        ),
    )
}

/// The whole effect of one paddle-movement step: the AI branch (an AI
/// paddle whose decision delay elapsed, while a ball exists) chases
/// the ball and resets its timer; otherwise the frame's key events
/// set the intent. Either way the paddle then moves and is clamped.
pub open spec fn paddle_move_effect(
    cm0: ComponentManager,
    cm1: ComponentManager,
    id: usize,
    dt_ms: u32,
    now_ms: u64,
    events: Seq<GameEvent>,
    height: u32,
) -> bool {
    let p0 = cm0.cpaddle_info@[id];
    let ai_active = p0.is_ai && p0.spec_delay_done(now_ms) && ball::ball_exists(cm0);
    &&& cm1.cmovement_2d@ == cm0.cmovement_2d@
    &&& cm1.ccollision_2d@ == cm0.ccollision_2d@
    &&& cm1.ctexture@ == cm0.ctexture@
    &&& cm1.cbutton_info@ == cm0.cbutton_info@
    &&& cm1.ctext@ == cm0.ctext@
    &&& cm1.id_allocator == cm0.id_allocator
    &&& if ai_active {
        exists|k: usize|
            {
                &&& #[trigger] ball::is_ball_key(cm0, k)
                &&& {
                    let bally = cm0.cposition_2d@[cm0.cposition_2d@[k].id].pos.y;
                    let diff = bally - cm0.cposition_2d@[id].pos.y;
                    let maps = paddle_step(cm0, id, ai_decision(diff), now_ms, dt_ms, height);
                    cm1.cpaddle_info@ == maps.0 && cm1.cposition_2d@ == maps.1
                }
            }
    } else {
        let maps = paddle_step(
            cm0,
            id,
            human_direction(events, p0.direction),
            p0.ai_delay_timer,
            dt_ms,
            height,
        );
        cm1.cpaddle_info@ == maps.0 && cm1.cposition_2d@ == maps.1
    }
}

/// Every paddle has the records a movement step reads, and its AI
/// timer was set at or before `now_ms`.
pub open spec fn paddles_wf(cm: ComponentManager, now_ms: u64) -> bool {
    forall|id: usize| #[trigger]
        cm.cpaddle_info@.contains_key(id) ==> {
            &&& cm.cposition_2d@.contains_key(id)
            &&& cm.cmovement_2d@.contains_key(id)
            &&& cm.ccollision_2d@.contains_key(id)
            &&& now_ms >= cm.cpaddle_info@[id].ai_delay_timer
        }
}

/// Every record named "ball" stores an id the position table holds,
/// so the name-based lookup's result can be dereferenced.
pub open spec fn ball_lookup_consistent(cm: ComponentManager) -> bool {
    forall|k: usize| #[trigger]
        ball::is_ball_key(cm, k) ==> cm.cposition_2d@.contains_key(cm.cposition_2d@[k].id)
}

/// The store walked from `cm0` to `cm1` by one paddle-movement step
/// per id in `order`, in that order; `states` lists the store before
/// and after each step.
pub open spec fn paddle_all_effect(
    cm0: ComponentManager,
    cm1: ComponentManager,
    order: Seq<usize>,
    states: Seq<ComponentManager>,
    dt_ms: u32,
    now_ms: u64,
    events: Seq<GameEvent>,
    height: u32,
) -> bool {
    &&& states.len() == order.len() + 1
    &&& states.first() == cm0
    &&& states.last() == cm1
    &&& forall|j: int|
        0 <= j < order.len() ==> paddle_move_effect(
            #[trigger] states[j],
            states[j + 1],
            order[j],
            dt_ms,
            now_ms,
            events,
            height,
        )
}

/// Sets each paddle's movement intent (AI or input) and applies it,
/// once per frame.
pub struct SysPaddleMovement {}

impl SysPaddleMovement {
    pub fn new() -> (s: SysPaddleMovement) {
        SysPaddleMovement {}
    }

    /// One movement step for the paddle `id`.
    pub fn move_paddle(
        &self,
        cmanager: &mut ComponentManager,
        id: usize,
        dt_ms: u32,
        now_ms: u64,
        event_runner: &EventRunner,
        height: u32,
    )
        requires
            old(cmanager).cpaddle_info@.contains_key(id),
            old(cmanager).cposition_2d@.contains_key(id),
            old(cmanager).cmovement_2d@.contains_key(id),
            old(cmanager).ccollision_2d@.contains_key(id),
            now_ms >= old(cmanager).cpaddle_info@[id].ai_delay_timer,
            ball_lookup_consistent(*old(cmanager)),
        ensures
            paddle_move_effect(
                *old(cmanager),
                *final(cmanager),
                id,
                dt_ms,
                now_ms,
                event_runner.event_list@,
                height,
            ),
    {
        let ball_id = ball::get_ball_id(cmanager);

        let paddle_info = cmanager.cpaddle_info.get(&id).unwrap();
        let is_ai = paddle_info.is_ai;
        let ai_delay = paddle_info.ai_delay;
        let old_timer = paddle_info.ai_delay_timer;
        let old_dir = paddle_info.direction;
        let pi_id = paddle_info.id;
        let pi_name = paddle_info.name.clone();
        let delay_done = paddle_info.is_delay_done(now_ms);

        let paddle_pos_y = cmanager.cposition_2d.get(&id).unwrap().pos.y;

        let dir_new: Direction;
        let timer_new: u64;
        if is_ai && delay_done && ball_id.is_some() {
            let bid = ball_id.unwrap();
            let ball_pos_y = cmanager.cposition_2d.get(&bid).unwrap().pos.y;
            let diff: i64 = ball_pos_y as i64 - paddle_pos_y as i64;
            if diff < 0 {
                dir_new = Direction::Up;
            } else if diff > 1 {
                dir_new = Direction::Down;
            } else {
                dir_new = Direction::Stationary;
            }
            timer_new = now_ms;
        } else {
            let ghost events = event_runner.event_list@;
            let mut dir = old_dir;
            let n = event_runner.event_list.len();
            let mut j: usize = 0;
            while j < n
                invariant
                    n == events.len(),
                    event_runner.event_list@ == events,
                    j <= n,
                    dir == human_direction(events.take(j as int), old_dir),
                decreases n - j,
            {
                proof {
                    assert(events.take(j + 1 as int).drop_last() =~= events.take(j as int));
                    assert(events.take(j + 1 as int).last() == events[j as int]);
                }
                let event = event_runner.event_list[j];
                match event {
                    GameEvent::KeyDown { keycode: KeyCode::W } => {
                        dir = Direction::Up;
                    },
                    GameEvent::KeyUp { keycode: KeyCode::W } => {
                        dir = Direction::Stationary;
                    },
                    GameEvent::KeyDown { keycode: KeyCode::S } => {
                        dir = Direction::Down;
                    },
                    GameEvent::KeyUp { keycode: KeyCode::S } => {
                        dir = Direction::Stationary;
                    },
                    _ => {},
                }
                j += 1;
            }
            proof {
                assert(events.take(n as int) =~= events);
            }
            dir_new = dir;
            timer_new = old_timer;
        }

        cmanager.cpaddle_info.insert(
            id,
            CPaddleInfo {
                id: pi_id,
                name: pi_name,
                direction: dir_new,
                ai_delay_timer: timer_new,
                ai_delay,
                is_ai,
            },
        );

        let speed = cmanager.cmovement_2d.get(&id).unwrap().speed;
        let d = displacement(speed, dt_ms);
        let y1: i32 = match dir_new {
            Direction::Up => add_clamped(paddle_pos_y, -(d as i64)),
            Direction::Down => add_clamped(paddle_pos_y, d as i64),
            Direction::Stationary => paddle_pos_y,
        };

        let h = cmanager.ccollision_2d.get(&id).unwrap().size.1;
        let (y2, _) = wall_clamp(y1, h, height);

        let posrec = cmanager.cposition_2d.get(&id).unwrap();
        let pos_id = posrec.id;
        let pos_name = posrec.name.clone();
        let pos_x = posrec.pos.x;
        cmanager.cposition_2d.insert(
            id,
            CPosition2D { id: pos_id, name: pos_name, pos: Point::new(pos_x, y2) },
        );
    }

    /// One movement step for every paddle, in an iteration order that
    /// callers must not rely on.
    pub fn execute(
        &self,
        cmanager: &mut ComponentManager,
        dt_ms: u32,
        now_ms: u64,
        event_runner: &EventRunner,
        height: u32,
    )
        requires
            paddles_wf(*old(cmanager), now_ms),
            ball_lookup_consistent(*old(cmanager)),
        ensures
            exists|order: Seq<usize>, states: Seq<ComponentManager>|
                order.no_duplicates() && order.to_set() == old(cmanager).cpaddle_info@.dom()
                    && #[trigger] paddle_all_effect(
                    *old(cmanager),
                    *final(cmanager),
                    order,
                    states,
                    dt_ms,
                    now_ms,
                    event_runner.event_list@,
                    height,
                ),
            final(cmanager).cmovement_2d@ == old(cmanager).cmovement_2d@,
            final(cmanager).ccollision_2d@ == old(cmanager).ccollision_2d@,
            final(cmanager).ctexture@ == old(cmanager).ctexture@,
            final(cmanager).cbutton_info@ == old(cmanager).cbutton_info@,
            final(cmanager).ctext@ == old(cmanager).ctext@,
            final(cmanager).id_allocator == old(cmanager).id_allocator,
            final(cmanager).cpaddle_info@.dom() == old(cmanager).cpaddle_info@.dom(),
            final(cmanager).cposition_2d@.dom() == old(cmanager).cposition_2d@.dom(),
            paddles_wf(*final(cmanager), now_ms),
            ball_lookup_consistent(*final(cmanager)),
            forall|q: usize| #[trigger]
                final(cmanager).cposition_2d@.contains_key(q)
                    ==> final(cmanager).cposition_2d@[q].name@ == old(cmanager).cposition_2d@[q].name@ && final(cmanager).cposition_2d@[q].id == old(cmanager).cposition_2d@[q].id,
            forall|q: usize| #[trigger]
                final(cmanager).cposition_2d@.contains_key(q) && !old(
                    cmanager,
                ).cpaddle_info@.contains_key(q) ==> final(cmanager).cposition_2d@[q] == old(
                    cmanager,
                ).cposition_2d@[q],
    {
        let keys = cmanager.cpaddle_info.keys();
        let ghost cm0 = *cmanager;
        let ghost mut states: Seq<ComponentManager> = seq![*cmanager];
        let n = keys.len();
        let mut i: usize = 0;
        while i < n
            invariant
                n == keys@.len(),
                i <= n,
                keys@.no_duplicates(),
                keys@.to_set() == cm0.cpaddle_info@.dom(),
                paddles_wf(*cmanager, now_ms),
                ball_lookup_consistent(*cmanager),
                cmanager.cpaddle_info@.dom() == cm0.cpaddle_info@.dom(),
                cmanager.cposition_2d@.dom() == cm0.cposition_2d@.dom(),
                cmanager.cmovement_2d@ == cm0.cmovement_2d@,
                cmanager.ccollision_2d@ == cm0.ccollision_2d@,
                cmanager.ctexture@ == cm0.ctexture@,
                cmanager.cbutton_info@ == cm0.cbutton_info@,
                cmanager.ctext@ == cm0.ctext@,
                cmanager.id_allocator == cm0.id_allocator,
                forall|q: usize| #[trigger]
                    cmanager.cposition_2d@.contains_key(q) ==> cmanager.cposition_2d@[q].name@
                        == cm0.cposition_2d@[q].name@ && cmanager.cposition_2d@[q].id
                        == cm0.cposition_2d@[q].id,
                forall|q: usize| #[trigger]
                    cmanager.cposition_2d@.contains_key(q) && !cm0.cpaddle_info@.contains_key(q)
                        ==> cmanager.cposition_2d@[q] == cm0.cposition_2d@[q],
                paddle_all_effect(
                    cm0,
                    *cmanager,
                    keys@.take(i as int),
                    states,
                    dt_ms,
                    now_ms,
                    event_runner.event_list@,
                    height,
                ),
            decreases n - i,
        {
            let ghost mid = *cmanager;
            let id = keys[i];
            proof {
                assert(keys@.contains(keys@[i as int]));
                assert(keys@.to_set().contains(id));
                assert(cmanager.cpaddle_info@.contains_key(id));
            }
            self.move_paddle(cmanager, id, dt_ms, now_ms, event_runner, height);
            proof {
                let events = event_runner.event_list@;
                let states0 = states;
                states = states.push(*cmanager);
                assert(states.last() == *cmanager);
                assert(states.drop_last() =~= states0);
                assert forall|j: int| 0 <= j < i + 1 implies paddle_move_effect(
                    #[trigger] states[j],
                    states[j + 1],
                    keys@.take(i + 1 as int)[j],
                    dt_ms,
                    now_ms,
                    events,
                    height,
                ) by {
                    if j < i {
                        assert(states[j] == states0[j]);
                        assert(states[j + 1] == states0[j + 1]);
                        assert(keys@.take(i + 1 as int)[j] == keys@.take(i as int)[j]);
                        assert(paddle_move_effect(
                            states0[j],
                            states0[j + 1],
                            keys@.take(i as int)[j],
                            dt_ms,
                            now_ms,
                            events,
                            height,
                        ));
                    } else {
                        assert(states[j] == mid);
                        assert(states[j + 1] == *cmanager);
                        assert(keys@.take(i + 1 as int)[j] == keys@[i as int]);
                    }
                }
                lemma_paddle_move_preserves(mid, *cmanager, id, dt_ms, now_ms, events, height);
            }
            i += 1;
        }
        proof {
            assert(keys@.take(n as int) =~= keys@);
            assert(paddle_all_effect(
                cm0,
                *cmanager,
                keys@,
                states,
                dt_ms,
                now_ms,
                event_runner.event_list@,
                height,
            ));
        }
    }
}

/// One movement step keeps every well-formedness fact the next step
/// reads: the tables' domains, the untouched tables, every name and
/// stored id, and the timers' bound.
proof fn lemma_paddle_move_preserves(
    cm0: ComponentManager,
    cm1: ComponentManager,
    id: usize,
    dt_ms: u32,
    now_ms: u64,
    events: Seq<GameEvent>,
    height: u32,
)
    requires
        cm0.cpaddle_info@.contains_key(id),
        cm0.cposition_2d@.contains_key(id),
        paddles_wf(cm0, now_ms),
        ball_lookup_consistent(cm0),
        paddle_move_effect(cm0, cm1, id, dt_ms, now_ms, events, height),
    ensures
        cm1.cpaddle_info@.dom() == cm0.cpaddle_info@.dom(),
        cm1.cposition_2d@.dom() == cm0.cposition_2d@.dom(),
        cm1.cmovement_2d@ == cm0.cmovement_2d@,
        cm1.ccollision_2d@ == cm0.ccollision_2d@,
        cm1.ctexture@ == cm0.ctexture@,
        cm1.cbutton_info@ == cm0.cbutton_info@,
        cm1.ctext@ == cm0.ctext@,
        cm1.id_allocator == cm0.id_allocator,
        paddles_wf(cm1, now_ms),
        ball_lookup_consistent(cm1),
        forall|q: usize| #[trigger]
            cm1.cposition_2d@.contains_key(q) ==> cm1.cposition_2d@[q].name@
                == cm0.cposition_2d@[q].name@ && cm1.cposition_2d@[q].id
                == cm0.cposition_2d@[q].id,
        forall|q: usize| #[trigger]
            cm1.cposition_2d@.contains_key(q) && q != id ==> cm1.cposition_2d@[q]
                == cm0.cposition_2d@[q],
{
    let p0 = cm0.cpaddle_info@[id];
    let ai_active = p0.is_ai && p0.spec_delay_done(now_ms) && ball::ball_exists(cm0);
    if ai_active {
        let k = choose|k: usize|
            {
                &&& #[trigger] ball::is_ball_key(cm0, k)
                &&& {
                    let bally = cm0.cposition_2d@[cm0.cposition_2d@[k].id].pos.y;
                    let diff = bally - cm0.cposition_2d@[id].pos.y;
                    let maps = paddle_step(cm0, id, ai_decision(diff), now_ms, dt_ms, height);
                    cm1.cpaddle_info@ == maps.0 && cm1.cposition_2d@ == maps.1
                }
            };
        assert(ball::is_ball_key(cm0, k));
    }
    assert(cm1.cpaddle_info@.dom() =~= cm0.cpaddle_info@.dom());
    assert(cm1.cposition_2d@.dom() =~= cm0.cposition_2d@.dom());
    assert forall|q: usize| #[trigger]
        cm1.cposition_2d@.contains_key(q) implies cm1.cposition_2d@[q].name@
        == cm0.cposition_2d@[q].name@ && cm1.cposition_2d@[q].id == cm0.cposition_2d@[q].id by {}
    assert forall|q: usize| #[trigger] ball::is_ball_key(cm1, q) implies ball::is_ball_key(
        cm0,
        q,
    ) by {}
    assert forall|q: usize| #[trigger]
        cm1.cpaddle_info@.contains_key(q) implies now_ms >= cm1.cpaddle_info@[q].ai_delay_timer by {
        assert(cm0.cpaddle_info@.contains_key(q));
    }
}

/// The decimal digit `d` as a character.
pub open spec fn spec_digit(d: int) -> char {
    if d == 0 {
        '0'
    } else if d == 1 {
        '1'
    } else if d == 2 {
        '2'
    } else if d == 3 {
        '3'
    } else if d == 4 {
        '4'
    } else if d == 5 {
        '5'
    } else if d == 6 {
        '6'
    } else if d == 7 {
        '7'
    } else if d == 8 {
        '8'
    } else {
        '9'
    }
}

/// The decimal rendering of a byte, without leading zeros.
pub open spec fn spec_u8_chars(n: u8) -> Seq<char> {
    if n < 10 {
        seq![spec_digit(n as int)]
    } else if n < 100 {
        seq![spec_digit(n as int / 10), spec_digit(n as int % 10)]
    } else {
        seq![
            spec_digit(n as int / 100),
            spec_digit((n as int / 10) % 10),
            spec_digit(n as int % 10),
        ]
    }
}

fn digit_str(d: u8) -> (r: &'static str)
    requires
        d < 10,
    ensures
        r@ == seq![spec_digit(d as int)],
{
    let r: &'static str = match d {
        0 => "0",
        1 => "1",
        2 => "2",
        3 => "3",
        4 => "4",
        5 => "5",
        6 => "6",
        7 => "7",
        8 => "8",
        _ => "9",
    };
    proof {
        reveal_strlit("0");
        reveal_strlit("1");
        reveal_strlit("2");
        reveal_strlit("3");
        reveal_strlit("4");
        reveal_strlit("5");
        reveal_strlit("6");
        reveal_strlit("7");
        reveal_strlit("8");
        reveal_strlit("9");
        assert(r@ =~= seq![spec_digit(d as int)]);
    }
    r
}

/// A byte rendered as its decimal digits; the score display.
pub fn u8_to_string(n: u8) -> (s: String)
    ensures
        s@ == spec_u8_chars(n),
{
    let mut s = String::new();
    if n >= 100 {
        s.append(digit_str(n / 100));
    }
    if n >= 10 {
        s.append(digit_str((n / 10) % 10));
    }
    s.append(digit_str(n % 10));
    proof {
        assert(s@ =~= spec_u8_chars(n));
    }
    s
}

/// One score display blit: the score's digits at (`x`, 100), font
/// "arial" at size 144, white.
pub open spec fn score_cmd_ok(cmd: DrawCmd, score: u8, x: i32) -> bool {
    &&& cmd matches DrawCmd::Text { content, pos, font, size, color }
    &&& content@ == spec_u8_chars(score)
    &&& pos == (Point { x, y: 100 })
    &&& font@ == "arial"@
    &&& size == 144u16
    &&& color == Color::spec_white()
}

/// The whole effect of one scoring step: the ball leaving the
/// playfield to the left scores for player 2, past `width` for player
/// 1; a score resets the ball to the center and re-rolls its
/// direction; both scores are drawn every frame, scored or not.
pub open spec fn scoring_effect(
    cm0: ComponentManager,
    cm1: ComponentManager,
    s1_0: u8,
    s2_0: u8,
    s1_1: u8,
    s2_1: u8,
    cmds: Seq<DrawCmd>,
    ball_id: usize,
    width: u32,
) -> bool {
    let p0 = cm0.cposition_2d@[ball_id];
    let m0 = cm0.cmovement_2d@[ball_id];
    let scored2 = p0.pos.x < 0;
    let scored1 = !scored2 && p0.pos.x as int > width as int;
    &&& (scored2 ==> s2_1 == s2_0 + 1 && s1_1 == s1_0)
    &&& (scored1 ==> s1_1 == s1_0 + 1 && s2_1 == s2_0)
    &&& (!scored1 && !scored2 ==> s1_1 == s1_0 && s2_1 == s2_0 && cm1.cposition_2d@
        == cm0.cposition_2d@ && cm1.cmovement_2d@ == cm0.cmovement_2d@)
    &&& ((scored1 || scored2) ==> {
        &&& cm1.cposition_2d@ == cm0.cposition_2d@.insert(
            ball_id,
            CPosition2D {
                id: p0.id,
                name: p0.name,
                pos: Point { x: crate::ball::START_BALL_X, y: crate::ball::START_BALL_Y },
            },
        )
        &&& cm1.cmovement_2d@.contains_key(ball_id)
        &&& cm1.cmovement_2d@.remove(ball_id) == cm0.cmovement_2d@.remove(ball_id)
        &&& cm1.cmovement_2d@[ball_id].id == m0.id
        &&& cm1.cmovement_2d@[ball_id].name == m0.name
        &&& cm1.cmovement_2d@[ball_id].speed == m0.speed
        &&& (cm1.cmovement_2d@[ball_id].x == 1 || cm1.cmovement_2d@[ball_id].x == -1)
        &&& (cm1.cmovement_2d@[ball_id].y == 1 || cm1.cmovement_2d@[ball_id].y == -1)
    })
    &&& cm1.ccollision_2d@ == cm0.ccollision_2d@
    &&& cm1.cpaddle_info@ == cm0.cpaddle_info@
    &&& cm1.ctexture@ == cm0.ctexture@
    &&& cm1.cbutton_info@ == cm0.cbutton_info@
    &&& cm1.ctext@ == cm0.ctext@
    &&& cm1.id_allocator == cm0.id_allocator
    &&& cmds.len() == 2
    &&& score_cmd_ok(cmds[0], s1_1, 540)
    &&& score_cmd_ok(cmds[1], s2_1, 740)
}

/// One scoring step keeps the tables' domains, every stored name and
/// id, direction validity, and every table the step does not touch.
proof fn lemma_scoring_preserves(
    cm0: ComponentManager,
    cm1: ComponentManager,
    s1_0: u8,
    s2_0: u8,
    s1_1: u8,
    s2_1: u8,
    cmds: Seq<DrawCmd>,
    ball_id: usize,
    width: u32,
)
    requires
        scoring_effect(cm0, cm1, s1_0, s2_0, s1_1, s2_1, cmds, ball_id, width),
        cm0.cposition_2d@.contains_key(ball_id),
        (cm0.cposition_2d@[ball_id].pos.x < 0 || cm0.cposition_2d@[ball_id].pos.x as int
            > width as int) ==> cm0.cmovement_2d@.contains_key(ball_id),
    ensures
        cm1.cposition_2d@.dom() == cm0.cposition_2d@.dom(),
        cm1.cmovement_2d@.dom() == cm0.cmovement_2d@.dom(),
        cm1.ccollision_2d@ == cm0.ccollision_2d@,
        cm1.cpaddle_info@ == cm0.cpaddle_info@,
        cm1.ctexture@ == cm0.ctexture@,
        cm1.cbutton_info@ == cm0.cbutton_info@,
        cm1.ctext@ == cm0.ctext@,
        cm1.id_allocator == cm0.id_allocator,
        forall|q: usize| #[trigger]
            cm1.cposition_2d@.contains_key(q) ==> cm1.cposition_2d@[q].name@
                == cm0.cposition_2d@[q].name@ && cm1.cposition_2d@[q].id
                == cm0.cposition_2d@[q].id,
        forall|q: usize| #[trigger]
            cm1.cmovement_2d@.contains_key(q) ==> cm1.cmovement_2d@[q].speed
                == cm0.cmovement_2d@[q].speed && (cm0.cmovement_2d@[q].dir_valid()
                ==> cm1.cmovement_2d@[q].dir_valid()),
        ball_lookup_consistent(cm0) ==> ball_lookup_consistent(cm1),
{
    let p0 = cm0.cposition_2d@[ball_id];
    let scored2 = p0.pos.x < 0;
    let scored1 = !scored2 && p0.pos.x as int > width as int;
    if scored1 || scored2 {
        assert(cm1.cposition_2d@.dom() =~= cm0.cposition_2d@.dom());
        assert forall|q: usize|
            cm1.cmovement_2d@.contains_key(q) == cm0.cmovement_2d@.contains_key(q) by {
            if q != ball_id {
                assert(cm1.cmovement_2d@.contains_key(q) == cm1.cmovement_2d@.remove(
                    ball_id,
                ).contains_key(q));
                assert(cm0.cmovement_2d@.contains_key(q) == cm0.cmovement_2d@.remove(
                    ball_id,
                ).contains_key(q));
            }
        }
        assert(cm1.cmovement_2d@.dom() =~= cm0.cmovement_2d@.dom());
        assert forall|q: usize| #[trigger] cm1.cmovement_2d@.contains_key(q) && q
            != ball_id implies cm1.cmovement_2d@[q] == cm0.cmovement_2d@[q] by {
            assert(cm1.cmovement_2d@[q] == cm1.cmovement_2d@.remove(ball_id)[q]);
            assert(cm0.cmovement_2d@[q] == cm0.cmovement_2d@.remove(ball_id)[q]);
        }
    }
    if ball_lookup_consistent(cm0) {
        assert forall|k: usize| #[trigger] ball::is_ball_key(cm1, k) implies
            cm1.cposition_2d@.contains_key(cm1.cposition_2d@[k].id) by {
            assert(cm0.cposition_2d@.contains_key(k));
            assert(cm1.cposition_2d@[k].name@ == cm0.cposition_2d@[k].name@);
            assert(ball::is_ball_key(cm0, k));
            assert(cm1.cposition_2d@[k].id == cm0.cposition_2d@[k].id);
            assert(cm0.cposition_2d@.contains_key(cm0.cposition_2d@[k].id));
        }
    }
}

/// Detects the ball leaving the playfield horizontally, keeps both
/// players' scores, and emits the score display, once per frame.
pub struct SysScoring {
    pub score_p1: u8,
    pub score_p2: u8,
}

impl SysScoring {
    pub fn new() -> (s: SysScoring)
        ensures
            s.score_p1 == 0,
            s.score_p2 == 0,
    {
        SysScoring { score_p1: 0, score_p2: 0 }
    }

    /// One scoring step for the ball `ball_id` against a playfield of
    /// the given width, returning the two score display commands.
    pub fn check_score(
        &mut self,
        cmanager: &mut ComponentManager,
        ball_id: usize,
        width: u32,
    ) -> (cmds: Vec<DrawCmd>)
        requires
            old(cmanager).cposition_2d@.contains_key(ball_id),
            (old(cmanager).cposition_2d@[ball_id].pos.x < 0 || old(cmanager).cposition_2d@[ball_id].pos.x as int > width as int) ==> old(cmanager).cmovement_2d@.contains_key(ball_id),
            old(cmanager).cposition_2d@[ball_id].pos.x < 0 ==> old(self).score_p2 < 255,
            (!(old(cmanager).cposition_2d@[ball_id].pos.x < 0) && old(cmanager).cposition_2d@[ball_id].pos.x as int > width as int) ==> old(self).score_p1 < 255,
        ensures
            scoring_effect(
                *old(cmanager),
                *final(cmanager),
                old(self).score_p1,
                old(self).score_p2,
                final(self).score_p1,
                final(self).score_p2,
                cmds@,
                ball_id,
                width,
            ),
    {
        let ball_position = cmanager.cposition_2d.get(&ball_id).unwrap();
        let px = ball_position.pos.x;
        let p_id = ball_position.id;
        let p_name = ball_position.name.clone();

        let mut has_scored = false;

        if px < 0 {
            self.score_p2 = self.score_p2 + 1;
            has_scored = true;
        } else if (px as i64) > (width as i64) {
            self.score_p1 = self.score_p1 + 1;
            has_scored = true;
        }

        if has_scored {
            cmanager.cposition_2d.insert(
                ball_id,
                CPosition2D {
                    id: p_id,
                    name: p_name,
                    pos: Point::new(crate::ball::START_BALL_X, crate::ball::START_BALL_Y),
                },
            );
            let ball_movement = cmanager.cmovement_2d.get(&ball_id).unwrap();
            let m_id = ball_movement.id;
            let m_name = ball_movement.name.clone();
            let m_speed = ball_movement.speed;
            let (x, y) = util::random_direction();
            cmanager.cmovement_2d.insert(
                ball_id,
                CMovement2D { id: m_id, name: m_name, speed: m_speed, x, y },
            );
            proof {
                assert(cmanager.cmovement_2d@.remove(ball_id) =~= old(cmanager).cmovement_2d@.remove(ball_id));
            }
        }

        let mut cmds: Vec<DrawCmd> = Vec::new();
        cmds.push(
            DrawCmd::Text {
                content: u8_to_string(self.score_p1),
                pos: Point::new(540, 100),
                font: "arial".to_owned(),
                size: 144,
                color: Color::white(),
            },
        );
        cmds.push(
            DrawCmd::Text {
                content: u8_to_string(self.score_p2),
                pos: Point::new(740, 100),
                font: "arial".to_owned(),
                size: 144,
                color: Color::white(),
            },
        );
        cmds
    }

    /// Finds the ball by name and scores; a frame without a ball draws
    /// nothing and changes nothing.
    pub fn execute(&mut self, cmanager: &mut ComponentManager, width: u32) -> (cmds: Vec<DrawCmd>)
        requires
            forall|k: usize| #[trigger]
                ball::is_ball_key(*old(cmanager), k) ==> {
                    let bid = old(cmanager).cposition_2d@[k].id;
                    &&& old(cmanager).cposition_2d@.contains_key(bid)
                    &&& ((old(cmanager).cposition_2d@[bid].pos.x < 0 || old(cmanager).cposition_2d@[bid].pos.x as int > width as int) ==> old(cmanager).cmovement_2d@.contains_key(bid))
                    &&& (old(cmanager).cposition_2d@[bid].pos.x < 0 ==> old(self).score_p2 < 255)
                    &&& ((!(old(cmanager).cposition_2d@[bid].pos.x < 0) && old(cmanager).cposition_2d@[bid].pos.x as int > width as int) ==> old(self).score_p1 < 255)
                },
        ensures
            !ball::ball_exists(*old(cmanager)) ==> *final(cmanager) == *old(cmanager)
                && *final(self) == *old(self) && cmds@ == Seq::<DrawCmd>::empty(),
            ball::ball_exists(*old(cmanager)) ==> exists|k: usize|
                #[trigger] ball::is_ball_key(*old(cmanager), k) && scoring_effect(
                    *old(cmanager),
                    *final(cmanager),
                    old(self).score_p1,
                    old(self).score_p2,
                    final(self).score_p1,
                    final(self).score_p2,
                    cmds@,
                    old(cmanager).cposition_2d@[k].id,
                    width,
                ),
            final(cmanager).cposition_2d@.dom() == old(cmanager).cposition_2d@.dom(),
            final(cmanager).cmovement_2d@.dom() == old(cmanager).cmovement_2d@.dom(),
            final(cmanager).ccollision_2d@ == old(cmanager).ccollision_2d@,
            final(cmanager).cpaddle_info@ == old(cmanager).cpaddle_info@,
            final(cmanager).ctexture@ == old(cmanager).ctexture@,
            final(cmanager).cbutton_info@ == old(cmanager).cbutton_info@,
            final(cmanager).ctext@ == old(cmanager).ctext@,
            final(cmanager).id_allocator == old(cmanager).id_allocator,
            forall|q: usize| #[trigger]
                final(cmanager).cposition_2d@.contains_key(q)
                    ==> final(cmanager).cposition_2d@[q].name@ == old(cmanager).cposition_2d@[q].name@
                    && final(cmanager).cposition_2d@[q].id == old(cmanager).cposition_2d@[q].id,
            forall|q: usize| #[trigger]
                final(cmanager).cmovement_2d@.contains_key(q)
                    ==> final(cmanager).cmovement_2d@[q].speed == old(cmanager).cmovement_2d@[q].speed
                    && (old(cmanager).cmovement_2d@[q].dir_valid() ==> final(cmanager).cmovement_2d@[q].dir_valid()),
            ball_lookup_consistent(*old(cmanager)) ==> ball_lookup_consistent(*final(cmanager)),
    {
        if let Some(ball_id) = ball::get_ball_id(cmanager) {
            let ghost s1_0 = self.score_p1;
            let ghost s2_0 = self.score_p2;
            proof {
                let k = choose|k: usize|
                    #[trigger] ball::is_ball_key(*cmanager, k) && cmanager.cposition_2d@[k].id
                        == ball_id;
                assert(cmanager.cposition_2d@.contains_key(cmanager.cposition_2d@[k].id));
            }
            let cmds = self.check_score(cmanager, ball_id, width);
            proof {
                lemma_scoring_preserves(
                    *old(cmanager),
                    *cmanager,
                    s1_0,
                    s2_0,
                    self.score_p1,
                    self.score_p2,
                    cmds@,
                    ball_id,
                    width,
                );
            }
            cmds
        } else {
            Vec::new()
        }
    }
}

/// A frame in which exactly one paddle's box overlaps the ball's box
/// inverts the ball's horizontal direction exactly once; with an odd
/// number of overlapping paddles likewise, and an even number leaves
/// it unchanged, since the per-paddle loop flips once per overlap.
pub proof fn lemma_paddle_overlap_inverts(
    cm0: ComponentManager,
    cm1: ComponentManager,
    ball_id: usize,
    dt_ms: u32,
    height: u32,
)
    requires
        ball_move_effect(cm0, cm1, ball_id, dt_ms, height),
        cm0.cposition_2d@.contains_key(ball_id),
        cm0.cmovement_2d@.contains_key(ball_id),
        cm0.ccollision_2d@.contains_key(ball_id),
        cm0.cmovement_2d@[ball_id].dir_valid(),
    ensures
        ({
            let hits = paddle_hits(
                cm0.cpaddle_info@,
                cm1.cposition_2d@,
                cm0.ccollision_2d@,
                ball_step_rect(cm0, ball_id, dt_ms, height),
            );
            &&& hits.len() == 1 ==> cm1.cmovement_2d@[ball_id].x == -cm0.cmovement_2d@[ball_id].x
            &&& hits.len() % 2 == 0 ==> cm1.cmovement_2d@[ball_id].x
                == cm0.cmovement_2d@[ball_id].x
        }),
{
}

/// The actions all of `ids`' button entities emit for the frame's
/// events, concatenated in id order.
pub open spec fn all_button_actions(
    cm: ComponentManager,
    ids: Seq<usize>,
    events: Seq<GameEvent>,
) -> Seq<ButtonAction>
    decreases ids.len(),
{
    if ids.len() == 0 {
        Seq::empty()
    } else {
        all_button_actions(cm, ids.drop_last(), events) + (if cm.cbutton_info@.contains_key(
            ids.last(),
        ) {
            click_actions(
                events,
                Rect {
                    cx: cm.cposition_2d@[ids.last()].pos.x,
                    cy: cm.cposition_2d@[ids.last()].pos.y,
                    w: cm.ccollision_2d@[ids.last()].size.0,
                    h: cm.ccollision_2d@[ids.last()].size.1,
                },
                cm.cbutton_info@[ids.last()].callback,
            )
        } else {
            Seq::<ButtonAction>::empty()
        })
    }
}

} // verus!
