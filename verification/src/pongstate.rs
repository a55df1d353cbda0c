//! The match screen: two paddles (left human, right AI) and the ball,
//! with paddle movement, ball movement, scoring, texture rendering and
//! the dashed center-court divider.

use vstd::prelude::*;
use crate::ball;
use crate::componentmanager::{lemma_dom_three, lemma_dom_two, ComponentManager};
use crate::gamestate::{AppContext, GameStates};
use crate::geometry::{Color, Point, Rect};
use crate::paddle;
use crate::paddle::Direction;
use crate::systems::{
    ball_lookup_consistent, ball_move_effect, ball_step_pos, fill_rect_cmd, has_texture_pred,
    paddle_all_effect, paddles_wf, scoring_effect, DrawCmd, SysBallMovement, SysPaddleMovement,
    SysRenderTexture, SysScoring,
};
use crate::util;
use crate::util::{EventRunner, GameEvent, KeyCode};

verus! {

/// One event's effect on the context while the match is active: a
/// quit request, Escape or P all return to the main menu.
pub open spec fn pong_input_step(ctx: AppContext, ev: GameEvent) -> AppContext {
    match ev {
        GameEvent::Quit => AppContext { state: GameStates::MainMenu, ..ctx },
        GameEvent::KeyDown { keycode: KeyCode::Escape } => AppContext {
            state: GameStates::MainMenu,
            ..ctx
        },
        GameEvent::KeyDown { keycode: KeyCode::P } => AppContext {
            state: GameStates::MainMenu,
            ..ctx
        },
        _ => ctx,
    }
}

/// The context after the match's own input handling of a frame's
/// events, in order.
pub open spec fn pong_input_effect(events: Seq<GameEvent>, ctx: AppContext) -> AppContext
    decreases events.len(),
{
    if events.len() == 0 {
        ctx
    } else {
        pong_input_step(pong_input_effect(events.drop_last(), ctx), events.last())
    }
}

/// Whether an event sends the match back to the main menu: a window
/// close request, Escape, or the P shortcut.
pub open spec fn is_menu_return_event(ev: GameEvent) -> bool {
    ev == GameEvent::Quit || ev == (GameEvent::KeyDown { keycode: KeyCode::Escape }) || ev == (
    GameEvent::KeyDown { keycode: KeyCode::P })
}

/// The match's input handling never touches the running flag; it
/// switches the tag to the main menu exactly when the frame's events
/// hold a close request, Escape or P, and changes nothing otherwise,
/// so the menu is the active screen at the top of the next iteration.
pub proof fn lemma_pong_input_general(events: Seq<GameEvent>, ctx: AppContext)
    ensures
        pong_input_effect(events, ctx).running == ctx.running,
        (exists|i: int| 0 <= i < events.len() && is_menu_return_event(#[trigger] events[i]))
            ==> pong_input_effect(events, ctx).state == GameStates::MainMenu,
        (forall|i: int| 0 <= i < events.len() ==> !is_menu_return_event(#[trigger] events[i]))
            ==> pong_input_effect(events, ctx) == ctx,
    decreases events.len(),
{
    if events.len() > 0 {
        let dl = events.drop_last();
        lemma_pong_input_general(dl, ctx);
        assert(forall|i: int| 0 <= i < dl.len() ==> #[trigger] dl[i] == events[i]);
        if exists|i: int| 0 <= i < events.len() && is_menu_return_event(#[trigger] events[i]) {
            let i = choose|i: int|
                0 <= i < events.len() && is_menu_return_event(#[trigger] events[i]);
            if i < events.len() - 1 {
                assert(is_menu_return_event(dl[i]));
            }
        }
    }
}

/// The store evolved by one paddle-movement pass over all paddles, in
/// some unspecified order.
pub open spec fn paddle_stage(
    cm0: ComponentManager,
    cm1: ComponentManager,
    dt_ms: u32,
    now_ms: u64,
    events: Seq<GameEvent>,
    height: u32,
) -> bool {
    exists|order: Seq<usize>, states: Seq<ComponentManager>|
        order.no_duplicates() && order.to_set() == cm0.cpaddle_info@.dom()
            && #[trigger] paddle_all_effect(cm0, cm1, order, states, dt_ms, now_ms, events, height)
}

/// The store evolved by one ball-movement pass: untouched when no
/// entity is named "ball", else one ball step for a matching entity.
pub open spec fn ball_stage(
    cm0: ComponentManager,
    cm1: ComponentManager,
    dt_ms: u32,
    height: u32,
) -> bool {
    if !ball::ball_exists(cm0) {
        cm1 == cm0
    } else {
        exists|k: usize|
            #[trigger] ball::is_ball_key(cm0, k) && ball_move_effect(
                cm0,
                cm1,
                cm0.cposition_2d@[k].id,
                dt_ms,
                height,
            )
    }
}

/// The store and scores evolved by one scoring pass, with the score
/// display it draws.
pub open spec fn scoring_stage(
    cm0: ComponentManager,
    cm1: ComponentManager,
    s1_0: u8,
    s2_0: u8,
    s1_1: u8,
    s2_1: u8,
    cmds: Seq<DrawCmd>,
    width: u32,
) -> bool {
    if !ball::ball_exists(cm0) {
        cm1 == cm0 && s1_1 == s1_0 && s2_1 == s2_0 && cmds == Seq::<DrawCmd>::empty()
    } else {
        exists|k: usize|
            #[trigger] ball::is_ball_key(cm0, k) && scoring_effect(
                cm0,
                cm1,
                s1_0,
                s2_0,
                s1_1,
                s2_1,
                cmds,
                cm0.cposition_2d@[k].id,
                width,
            )
    }
}

/// The filled rectangles of every textured, positioned entity, in
/// allocation order.
pub open spec fn texture_cmds_of(cm: ComponentManager) -> Seq<DrawCmd> {
    let drawn = cm.id_allocator.model().allocated.filter(has_texture_pred(cm));
    Seq::new(drawn.len(), |j: int| fill_rect_cmd(cm, drawn[j]))
}

/// The dashed center-court divider: 10 by 50 white rectangles
/// horizontally centered at x = 640, from the top edge down in 75
/// pixel steps until the playfield height is passed.
pub open spec fn divider_cmds(height: u32) -> Seq<DrawCmd> {
    Seq::new(
        (height as int / 75 + 1) as nat,
        |k: int|
            DrawCmd::FillRect {
                rect: Rect { cx: 640, cy: (75 * k + 25) as i32, w: 10, h: 50 },
                color: Color::spec_white(),
            },
    )
}

/// One whole match frame's effect on the screen: the paddle, ball and
/// scoring passes in order, and the draw list they leave behind: the
/// score display, every textured entity, then the divider.
pub open spec fn pong_frame_effect(
    p0: PongState,
    p1: PongState,
    cmds: Seq<DrawCmd>,
    dt_ms: u32,
    now_ms: u64,
    events: Seq<GameEvent>,
    width: u32,
    height: u32,
) -> bool {
    &&& p1.render_system == p0.render_system
    &&& p1.ball_move_system == p0.ball_move_system
    &&& p1.paddle_move_system == p0.paddle_move_system
    &&& exists|mid1: ComponentManager, mid2: ComponentManager, score_cmds: Seq<DrawCmd>|
        {
            &&& #[trigger] paddle_stage(p0.cmanager, mid1, dt_ms, now_ms, events, height)
            &&& #[trigger] ball_stage(mid1, mid2, dt_ms, height)
            &&& #[trigger] scoring_stage(
                mid2,
                p1.cmanager,
                p0.scoring_system.score_p1,
                p0.scoring_system.score_p2,
                p1.scoring_system.score_p1,
                p1.scoring_system.score_p2,
                score_cmds,
                width,
            )
            &&& cmds == score_cmds + texture_cmds_of(p1.cmanager) + divider_cmds(height)
        }
}

/// Each score a frame could increment sits below the counter's
/// ceiling: a u8 score at 255 must not be asked to count another
/// goal. The ball's horizontal coordinate at scoring time is either
/// its stored one (when the movement pass skipped it) or the
/// displaced, wall-corrected one; the bound is required whenever
/// either crosses the playfield's edge. Both scores below 255 is
/// always enough.
pub open spec fn scores_below_ceiling(p: PongState, dt_ms: u32, width: u32, height: u32) -> bool {
    forall|k: usize| #[trigger]
        ball::is_ball_key(p.cmanager, k) ==> ({
            let cm = p.cmanager;
            let bid = cm.cposition_2d@[k].id;
            let x0 = cm.cposition_2d@[bid].pos.x as int;
            let x1 = ball_step_pos(cm, bid, dt_ms, height).x as int;
            &&& ((x0 < 0 || x1 < 0) ==> p.scoring_system.score_p2 < 255)
            &&& ((x0 > width || x1 > width) ==> p.scoring_system.score_p1 < 255)
        })
}

/// The match screen: its own component store, both paddles, the ball,
/// and the movement, scoring and texture-render systems.
pub struct PongState {
    pub cmanager: ComponentManager,
    pub render_system: SysRenderTexture,
    pub ball_move_system: SysBallMovement,
    pub paddle_move_system: SysPaddleMovement,
    pub scoring_system: SysScoring,
}

impl PongState {
    /// The shape every frame relies on: each paddle has the records a
    /// movement step reads with its AI timer at or before `now_ms`,
    /// the ball lookup dereferences, every stored direction is a unit
    /// step, and a ball-named entity has a movement record and is not
    /// itself a paddle.
    pub open spec fn wf(self, now_ms: u64) -> bool {
        &&& paddles_wf(self.cmanager, now_ms)
        &&& ball_lookup_consistent(self.cmanager)
        &&& forall|q: usize| #[trigger]
            self.cmanager.cmovement_2d@.contains_key(q)
                ==> self.cmanager.cmovement_2d@[q].dir_valid()
        &&& forall|k: usize| #[trigger]
            ball::is_ball_key(self.cmanager, k) ==> self.cmanager.cmovement_2d@.contains_key(
                self.cmanager.cposition_2d@[k].id,
            )
        &&& forall|k: usize| #[trigger]
            ball::is_ball_key(self.cmanager, k) ==> !self.cmanager.cpaddle_info@.contains_key(
                self.cmanager.cposition_2d@[k].id,
            )
    }

    /// A state well-formed at one clock reading is well-formed at any
    /// later one.
    pub proof fn lemma_wf_monotone(self, t1: u64, t2: u64)
        requires
            self.wf(t1),
            t1 <= t2,
        ensures
            self.wf(t2),
    {
    }

    /// Builds the match: the left human paddle, the right AI paddle
    /// and the ball, with both scores at zero and both AI timers set
    /// to `now_ms`.
    pub fn new(now_ms: u64) -> (s: PongState)
        ensures
            s.wf(now_ms),
            s.scoring_system.score_p1 == 0,
            s.scoring_system.score_p2 == 0,
            s.cmanager.id_allocator.model().allocated == seq![0usize, 1usize, 2usize],
            s.cmanager.cpaddle_info@.contains_key(0) && !s.cmanager.cpaddle_info@[0].is_ai
                && s.cmanager.cpaddle_info@[0].direction == Direction::Stationary
                && s.cmanager.cpaddle_info@[0].name@ == "paddle_1"@,
            s.cmanager.cpaddle_info@.contains_key(1) && s.cmanager.cpaddle_info@[1].is_ai
                && s.cmanager.cpaddle_info@[1].direction == Direction::Stationary
                && s.cmanager.cpaddle_info@[1].name@ == "paddle_2"@,
            s.cmanager.cposition_2d@.contains_key(0) && s.cmanager.cposition_2d@[0].pos == (Point {
                x: 64,
                y: 360,
            }) && s.cmanager.cposition_2d@[0].name@ == "paddle_1"@ && s.cmanager.cposition_2d@[0].id
                == 0,
            s.cmanager.cposition_2d@.contains_key(1) && s.cmanager.cposition_2d@[1].pos == (Point {
                x: 1216,
                y: 360,
            }) && s.cmanager.cposition_2d@[1].name@ == "paddle_2"@ && s.cmanager.cposition_2d@[1].id
                == 1,
            s.cmanager.cposition_2d@.contains_key(2) && s.cmanager.cposition_2d@[2].pos == (Point {
                x: 640,
                y: 360,
            }) && s.cmanager.cposition_2d@[2].name@ == "ball"@ && s.cmanager.cposition_2d@[2].id
                == 2,
            ball::ball_exists(s.cmanager),
            s.cmanager.cmovement_2d@.contains_key(2) && s.cmanager.cmovement_2d@[2].speed == 540
                && (s.cmanager.cmovement_2d@[2].x == 1 || s.cmanager.cmovement_2d@[2].x == -1) && (
            s.cmanager.cmovement_2d@[2].y == 1 || s.cmanager.cmovement_2d@[2].y == -1),
            s.cmanager.ctexture@.contains_key(0) && s.cmanager.ctexture@[0].size == (10u32, 100u32)
                && s.cmanager.ctexture@[0].color == Color::spec_white(),
            s.cmanager.ctexture@.contains_key(1) && s.cmanager.ctexture@[1].size == (10u32, 100u32)
                && s.cmanager.ctexture@[1].color == Color::spec_white(),
            s.cmanager.ctexture@.contains_key(2) && s.cmanager.ctexture@[2].size == (10u32, 10u32)
                && s.cmanager.ctexture@[2].color == Color::spec_white(),
            s.cmanager.ccollision_2d@.contains_key(0) && s.cmanager.ccollision_2d@[0].size == (
                10u32,
                100u32,
            ),
            s.cmanager.ccollision_2d@.contains_key(1) && s.cmanager.ccollision_2d@[1].size == (
                10u32,
                100u32,
            ),
            s.cmanager.ccollision_2d@.contains_key(2) && s.cmanager.ccollision_2d@[2].size == (
                10u32,
                10u32,
            ),
            s.cmanager.cpaddle_info@.dom() == set![0usize, 1usize],
            s.cmanager.cposition_2d@.dom() == set![0usize, 1usize, 2usize],
            s.cmanager.cmovement_2d@.dom() == set![0usize, 1usize, 2usize],
            s.cmanager.ccollision_2d@.dom() == set![0usize, 1usize, 2usize],
            s.cmanager.ctexture@.dom() == set![0usize, 1usize, 2usize],
            s.cmanager.cbutton_info@ == Map::<usize, crate::components::CButtonInfo>::empty(),
            s.cmanager.ctext@ == Map::<usize, crate::components::CText>::empty(),
    {
        let mut cmanager: ComponentManager = util::create_component_manager();

        let srender = SysRenderTexture::new();
        let sball_move = SysBallMovement::new();
        let spaddle_move = SysPaddleMovement::new();
        let sscoring = SysScoring::new();

        let ghost cm0 = cmanager;
        paddle::create(&mut cmanager, true, false, "paddle_1", now_ms);
        let ghost cm1 = cmanager;
        paddle::create(&mut cmanager, false, true, "paddle_2", now_ms);
        let ghost cm2 = cmanager;
        ball::create(&mut cmanager);
        let ghost cm3 = cmanager;

        proof {
            assert(cm1.id_allocator.model().allocated =~= seq![0usize]);
            assert(cm2.id_allocator.model().allocated =~= seq![0usize, 1usize]);
            assert(cm3.id_allocator.model().allocated =~= seq![0usize, 1usize, 2usize]);

            lemma_chain_pos(cm1, cm2, 1, 0);
            lemma_chain_pos(cm2, cm3, 2, 0);
            lemma_chain_pos(cm2, cm3, 2, 1);
            lemma_chain_mov(cm1, cm2, 1, 0);
            lemma_chain_mov(cm2, cm3, 2, 0);
            lemma_chain_mov(cm2, cm3, 2, 1);
            lemma_chain_coll(cm1, cm2, 1, 0);
            lemma_chain_coll(cm2, cm3, 2, 0);
            lemma_chain_coll(cm2, cm3, 2, 1);

            assert(cm2.ctexture@.contains_key(0) && cm2.ctexture@[0] == cm1.ctexture@[0]) by {
                assert(cm2.ctexture@.remove(1).contains_key(0) == cm1.ctexture@.remove(
                    1,
                ).contains_key(0));
                assert(cm2.ctexture@.remove(1)[0] == cm1.ctexture@.remove(1)[0]);
            }
            assert(cm3.ctexture@.contains_key(0) && cm3.ctexture@[0] == cm2.ctexture@[0]) by {
                assert(cm3.ctexture@.remove(2).contains_key(0) == cm2.ctexture@.remove(
                    2,
                ).contains_key(0));
                assert(cm3.ctexture@.remove(2)[0] == cm2.ctexture@.remove(2)[0]);
            }
            assert(cm3.ctexture@.contains_key(1) && cm3.ctexture@[1] == cm2.ctexture@[1]) by {
                assert(cm3.ctexture@.remove(2).contains_key(1) == cm2.ctexture@.remove(
                    2,
                ).contains_key(1));
                assert(cm3.ctexture@.remove(2)[1] == cm2.ctexture@.remove(2)[1]);
            }

            assert(cm3.cpaddle_info@ == cm2.cpaddle_info@);
            assert(cm2.cpaddle_info@.contains_key(0) && cm2.cpaddle_info@[0]
                == cm1.cpaddle_info@[0]) by {
                assert(cm2.cpaddle_info@.remove(1).contains_key(0) == cm1.cpaddle_info@.remove(
                    1,
                ).contains_key(0));
                assert(cm2.cpaddle_info@.remove(1)[0] == cm1.cpaddle_info@.remove(1)[0]);
            }

            assert(ball::is_ball_key(cm3, 2));

            assert forall|q: usize| #[trigger] cm3.cpaddle_info@.contains_key(q) implies {
                &&& cm3.cposition_2d@.contains_key(q)
                &&& cm3.cmovement_2d@.contains_key(q)
                &&& cm3.ccollision_2d@.contains_key(q)
                &&& now_ms >= cm3.cpaddle_info@[q].ai_delay_timer
            } by {
                if q != 1 {
                    assert(cm2.cpaddle_info@.remove(1).contains_key(q) == cm1.cpaddle_info@.remove(
                        1,
                    ).contains_key(q));
                    assert(cm1.cpaddle_info@.contains_key(q));
                    if q != 0 {
                        assert(cm1.cpaddle_info@.remove(0).contains_key(q)
                            == cm0.cpaddle_info@.remove(0).contains_key(q));
                        assert(false);
                    }
                    assert(cm2.cpaddle_info@.remove(1)[0] == cm1.cpaddle_info@.remove(1)[0]);
                }
            }

            assert forall|q: usize| #[trigger] cm3.cposition_2d@.contains_key(q) implies
                cm3.cposition_2d@[q].id == q by {
                lemma_pos_id_is_key(cm0, cm1, cm2, cm3, q);
            }

            assert forall|q: usize| #[trigger] cm3.cmovement_2d@.contains_key(q) implies
                cm3.cmovement_2d@[q].dir_valid() by {
                if q != 2 {
                    assert(cm3.cmovement_2d@.remove(2).contains_key(q) == cm2.cmovement_2d@.remove(
                        2,
                    ).contains_key(q));
                    assert(cm3.cmovement_2d@.remove(2)[q] == cm2.cmovement_2d@.remove(2)[q]);
                    assert(cm2.cmovement_2d@.contains_key(q));
                    if q != 1 {
                        assert(cm2.cmovement_2d@.remove(1).contains_key(q)
                            == cm1.cmovement_2d@.remove(1).contains_key(q));
                        assert(cm2.cmovement_2d@.remove(1)[q] == cm1.cmovement_2d@.remove(1)[q]);
                        assert(cm1.cmovement_2d@.contains_key(q));
                        if q != 0 {
                            assert(cm1.cmovement_2d@.remove(0).contains_key(q)
                                == cm0.cmovement_2d@.remove(0).contains_key(q));
                            assert(false);
                        }
                    }
                }
            }

            assert forall|k: usize| #[trigger] ball::is_ball_key(cm3, k) implies
                cm3.cposition_2d@.contains_key(cm3.cposition_2d@[k].id)
                    && cm3.cmovement_2d@.contains_key(cm3.cposition_2d@[k].id) by {
                lemma_pos_id_is_key(cm0, cm1, cm2, cm3, k);
                assert(cm3.cposition_2d@[k].id == k);
                lemma_ball_named_has_movement(cm0, cm1, cm2, cm3, k);
            }

            lemma_dom_two(cm0.cpaddle_info@, cm1.cpaddle_info@, cm2.cpaddle_info@);
            assert(cm3.cpaddle_info@.dom() == set![0usize, 1usize]);

            lemma_dom_three(
                cm0.cposition_2d@,
                cm1.cposition_2d@,
                cm2.cposition_2d@,
                cm3.cposition_2d@,
            );
            assert forall|k: usize| #[trigger] ball::is_ball_key(cm3, k) implies
                !cm3.cpaddle_info@.contains_key(cm3.cposition_2d@[k].id) by {
                reveal_strlit("ball");
                reveal_strlit("paddle_1");
                reveal_strlit("paddle_2");
                assert(cm3.cposition_2d@.dom().contains(k));
                assert(k == 0 || k == 1 || k == 2);
                if k == 0 || k == 1 {
                    assert(cm3.cposition_2d@[k].name@.len() == 8);
                    assert(!ball::eq_ignore_case(cm3.cposition_2d@[k].name@, "ball"@));
                }
                assert(k == 2);
                assert(cm3.cposition_2d@[2].id == 2);
                assert(!cm3.cpaddle_info@.dom().contains(2usize));
            }
            lemma_dom_three(
                cm0.cmovement_2d@,
                cm1.cmovement_2d@,
                cm2.cmovement_2d@,
                cm3.cmovement_2d@,
            );
            lemma_dom_three(
                cm0.ccollision_2d@,
                cm1.ccollision_2d@,
                cm2.ccollision_2d@,
                cm3.ccollision_2d@,
            );
            lemma_dom_three(cm0.ctexture@, cm1.ctexture@, cm2.ctexture@, cm3.ctexture@);
        }

        PongState {
            cmanager,
            render_system: srender,
            ball_move_system: sball_move,
            paddle_move_system: spaddle_move,
            scoring_system: sscoring,
        }
    }

    fn process_input(&self, event_runner: &EventRunner, ctx: &mut AppContext)
        ensures
            *final(ctx) == pong_input_effect(event_runner.event_list@, *old(ctx)),
    {
        let ghost events = event_runner.event_list@;
        let n = event_runner.event_list.len();
        let mut i: usize = 0;
        while i < n
            invariant
                n == events.len(),
                event_runner.event_list@ == events,
                i <= n,
                *ctx == pong_input_effect(events.take(i as int), *old(ctx)),
            decreases n - i,
        {
            proof {
                assert(events.take(i + 1 as int).drop_last() =~= events.take(i as int));
                assert(events.take(i + 1 as int).last() == events[i as int]);
            }
            let event = event_runner.event_list[i];
            match event {
                GameEvent::Quit => {
                    util::change_gamestate(ctx, GameStates::MainMenu);
                },
                GameEvent::KeyDown { keycode: KeyCode::Escape } => {
                    util::change_gamestate(ctx, GameStates::MainMenu);
                },
                GameEvent::KeyDown { keycode: KeyCode::P } => {
                    util::change_gamestate(ctx, GameStates::MainMenu);
                },
                _ => {},
            }
            i += 1;
        }
        proof {
            assert(events.take(n as int) =~= events);
        }
    }

    fn render_divider(&self, height: u32) -> (cmds: Vec<DrawCmd>)
        requires
            height <= 2147483600,
        ensures
            cmds@ == divider_cmds(height),
    {
        let mut cmds: Vec<DrawCmd> = Vec::new();
        let mut line_iterator: u32 = 0;
        while line_iterator <= height
            invariant
                height <= 2147483600,
                line_iterator == 75 * cmds@.len(),
                cmds@.len() <= height as int / 75 + 1,
                line_iterator <= height + 75,
                forall|k: int| 0 <= k < cmds@.len() ==> cmds@[k] == divider_cmds(height)[k],
            decreases height + 75 - line_iterator,
        {
            let y_top_pos = line_iterator as i32;
            let line = Rect { cx: 640, cy: y_top_pos + 25, w: 10, h: 50 };
            cmds.push(DrawCmd::FillRect { rect: line, color: Color::white() });
            line_iterator = 50 + 25 + line_iterator;
        }
        proof {
            assert(75 * (height as int / 75) <= height as int) by (nonlinear_arith);
            assert((height as int) < 75 * (height as int / 75) + 75) by (nonlinear_arith);
            assert(cmds@.len() == height as int / 75 + 1);
            assert(cmds@ =~= divider_cmds(height));
        }
        cmds
    }

    /// One match frame: handles the frame's events (Escape, a close
    /// request or P all return to the main menu), then runs paddle
    /// movement, ball movement and scoring in that order, and returns
    /// the frame's draw commands: the score display, every textured
    /// entity, then the center-court divider.
    pub fn execute(
        &mut self,
        dt_ms: u32,
        now_ms: u64,
        event_runner: &EventRunner,
        ctx: &mut AppContext,
        width: u32,
        height: u32,
    ) -> (cmds: Vec<DrawCmd>)
        requires
            old(self).wf(now_ms),
            scores_below_ceiling(*old(self), dt_ms, width, height),
            height <= 2147483600,
        ensures
            final(self).wf(now_ms),
            *final(ctx) == pong_input_effect(event_runner.event_list@, *old(ctx)),
            pong_frame_effect(
                *old(self),
                *final(self),
                cmds@,
                dt_ms,
                now_ms,
                event_runner.event_list@,
                width,
                height,
            ),
    {
        self.process_input(event_runner, ctx);

        let ghost cm0 = self.cmanager;
        self.paddle_move_system.execute(
            &mut self.cmanager,
            dt_ms,
            now_ms,
            event_runner,
            height,
        );
        let ghost m1 = self.cmanager;
        proof {
            assert(paddle_stage(cm0, m1, dt_ms, now_ms, event_runner.event_list@, height));
            assert forall|k: usize| #[trigger]
                ball::is_ball_key(m1, k) && m1.cmovement_2d@.contains_key(
                    m1.cposition_2d@[k].id,
                ) implies m1.cmovement_2d@[m1.cposition_2d@[k].id].dir_valid() by {}
        }

        self.ball_move_system.execute(&mut self.cmanager, dt_ms, height);
        let ghost m2 = self.cmanager;
        proof {
            assert(ball_stage(m1, m2, dt_ms, height));
            assert forall|k: usize| #[trigger] ball::is_ball_key(m2, k) implies {
                let bid = m2.cposition_2d@[k].id;
                m2.cposition_2d@.contains_key(bid) && m2.cmovement_2d@.contains_key(bid)
            } by {
                assert(m1.cposition_2d@.contains_key(k));
                assert(ball::is_ball_key(m1, k));
                assert(ball::is_ball_key(cm0, k));
                assert(cm0.cmovement_2d@.contains_key(cm0.cposition_2d@[k].id));
                assert(m2.cposition_2d@[k].id == cm0.cposition_2d@[k].id);
            }
            assert forall|k: usize| #[trigger] ball::is_ball_key(m2, k) implies ({
                let bid = m2.cposition_2d@[k].id;
                &&& (m2.cposition_2d@[bid].pos.x < 0 ==> self.scoring_system.score_p2 < 255)
                &&& (!(m2.cposition_2d@[bid].pos.x < 0) && m2.cposition_2d@[bid].pos.x as int
                    > width as int ==> self.scoring_system.score_p1 < 255)
            }) by {
                assert(m1.cposition_2d@.contains_key(k));
                assert(ball::is_ball_key(m1, k));
                assert(ball::is_ball_key(cm0, k));
                let bid = m2.cposition_2d@[k].id;
                assert(bid == cm0.cposition_2d@[k].id);
                assert(!cm0.cpaddle_info@.contains_key(bid));
                assert(cm0.cposition_2d@.contains_key(bid));
                assert(m1.cposition_2d@.contains_key(bid));
                assert(m1.cposition_2d@[bid] == cm0.cposition_2d@[bid]);
                let x0 = cm0.cposition_2d@[bid].pos.x as int;
                let x1 = ball_step_pos(cm0, bid, dt_ms, height).x as int;
                assert(m2.cposition_2d@[bid].pos.x as int == x0 || m2.cposition_2d@[bid].pos.x
                    as int == x1) by {
                    if ball::ball_exists(m1) {
                        let kw = choose|kw: usize|
                            #[trigger] ball::is_ball_key(m1, kw) && ball_move_effect(
                                m1,
                                m2,
                                m1.cposition_2d@[kw].id,
                                dt_ms,
                                height,
                            );
                        let moved = m1.cposition_2d@[kw].id;
                        if m1.cposition_2d@.contains_key(moved) && m1.cmovement_2d@.contains_key(
                            moved,
                        ) && m1.ccollision_2d@.contains_key(moved) {
                            if bid == moved {
                                assert(m2.cposition_2d@[bid].pos.x == ball_step_pos(
                                    m1,
                                    bid,
                                    dt_ms,
                                    height,
                                ).x);
                                assert(m1.cmovement_2d@[bid] == cm0.cmovement_2d@[bid]);
                                assert(m1.ccollision_2d@[bid] == cm0.ccollision_2d@[bid]);
                                assert(ball_step_pos(m1, bid, dt_ms, height) == ball_step_pos(
                                    cm0,
                                    bid,
                                    dt_ms,
                                    height,
                                ));
                            } else {
                                assert(m2.cposition_2d@[bid] == m1.cposition_2d@[bid]);
                            }
                        } else {
                            assert(m2 == m1);
                        }
                    } else {
                        assert(m2 == m1);
                    }
                }
            }
        }

        let score_cmds = self.scoring_system.execute(&mut self.cmanager, width);
        let ghost m3 = self.cmanager;
        proof {
            assert(scoring_stage(
                m2,
                m3,
                old(self).scoring_system.score_p1,
                old(self).scoring_system.score_p2,
                self.scoring_system.score_p1,
                self.scoring_system.score_p2,
                score_cmds@,
                width,
            ));
            assert(paddles_wf(m3, now_ms)) by {
                assert forall|q: usize| #[trigger] m3.cpaddle_info@.contains_key(q) implies {
                    &&& m3.cposition_2d@.contains_key(q)
                    &&& m3.cmovement_2d@.contains_key(q)
                    &&& m3.ccollision_2d@.contains_key(q)
                    &&& now_ms >= m3.cpaddle_info@[q].ai_delay_timer
                } by {
                    assert(m1.cpaddle_info@.contains_key(q));
                    assert(m1.cposition_2d@.contains_key(q));
                    assert(m1.cmovement_2d@.contains_key(q));
                    assert(m1.ccollision_2d@.contains_key(q));
                }
            }
            assert forall|q: usize| #[trigger] m3.cmovement_2d@.contains_key(q) implies
                m3.cmovement_2d@[q].dir_valid() by {
                assert(m2.cmovement_2d@.contains_key(q));
                assert(m1.cmovement_2d@.contains_key(q));
                assert(cm0.cmovement_2d@.contains_key(q));
            }
            assert forall|k: usize| #[trigger] ball::is_ball_key(m3, k) implies
                m3.cmovement_2d@.contains_key(m3.cposition_2d@[k].id) by {
                assert(m2.cposition_2d@.contains_key(k));
                assert(ball::is_ball_key(m2, k));
                assert(m2.cmovement_2d@.contains_key(m2.cposition_2d@[k].id));
                assert(m3.cposition_2d@[k].id == m2.cposition_2d@[k].id);
            }
            assert forall|k: usize| #[trigger] ball::is_ball_key(m3, k) implies
                !m3.cpaddle_info@.contains_key(m3.cposition_2d@[k].id) by {
                assert(m2.cposition_2d@.contains_key(k));
                assert(ball::is_ball_key(m2, k));
                assert(m1.cposition_2d@.contains_key(k));
                assert(ball::is_ball_key(m1, k));
                assert(ball::is_ball_key(cm0, k));
                assert(m3.cposition_2d@[k].id == cm0.cposition_2d@[k].id);
                assert(!cm0.cpaddle_info@.contains_key(cm0.cposition_2d@[k].id));
                assert(m1.cpaddle_info@.dom() == cm0.cpaddle_info@.dom());
                assert(m3.cpaddle_info@ == m1.cpaddle_info@);
            }
        }

        let mut cmds = score_cmds;
        let mut tex_cmds = self.render_system.execute(&self.cmanager);
        proof {
            assert(tex_cmds@ =~= texture_cmds_of(self.cmanager));
        }
        cmds.append(&mut tex_cmds);
        let mut div_cmds = self.render_divider(height);
        cmds.append(&mut div_cmds);

        cmds
    }
}

/// A record untouched by a later creation keeps its place: position.
proof fn lemma_chain_pos(cma: ComponentManager, cmb: ComponentManager, newid: usize, q: usize)
    requires
        cmb.cposition_2d@.remove(newid) == cma.cposition_2d@.remove(newid),
        q != newid,
        cma.cposition_2d@.contains_key(q),
    ensures
        cmb.cposition_2d@.contains_key(q),
        cmb.cposition_2d@[q] == cma.cposition_2d@[q],
{
    assert(cma.cposition_2d@.remove(newid).contains_key(q));
    assert(cmb.cposition_2d@.remove(newid).contains_key(q));
    assert(cmb.cposition_2d@.contains_key(q));
    assert(cma.cposition_2d@.remove(newid)[q] == cma.cposition_2d@[q]);
    assert(cmb.cposition_2d@.remove(newid)[q] == cmb.cposition_2d@[q]);
    assert(cmb.cposition_2d@.remove(newid)[q] == cma.cposition_2d@.remove(newid)[q]);
}

/// See `lemma_chain_pos`: movement.
proof fn lemma_chain_mov(cma: ComponentManager, cmb: ComponentManager, newid: usize, q: usize)
    requires
        cmb.cmovement_2d@.remove(newid) == cma.cmovement_2d@.remove(newid),
        q != newid,
        cma.cmovement_2d@.contains_key(q),
    ensures
        cmb.cmovement_2d@.contains_key(q),
        cmb.cmovement_2d@[q] == cma.cmovement_2d@[q],
{
    assert(cma.cmovement_2d@.remove(newid).contains_key(q));
    assert(cmb.cmovement_2d@.remove(newid).contains_key(q));
    assert(cmb.cmovement_2d@.contains_key(q));
    assert(cma.cmovement_2d@.remove(newid)[q] == cma.cmovement_2d@[q]);
    assert(cmb.cmovement_2d@.remove(newid)[q] == cmb.cmovement_2d@[q]);
    assert(cmb.cmovement_2d@.remove(newid)[q] == cma.cmovement_2d@.remove(newid)[q]);
}

/// See `lemma_chain_pos`: collision.
proof fn lemma_chain_coll(cma: ComponentManager, cmb: ComponentManager, newid: usize, q: usize)
    requires
        cmb.ccollision_2d@.remove(newid) == cma.ccollision_2d@.remove(newid),
        q != newid,
        cma.ccollision_2d@.contains_key(q),
    ensures
        cmb.ccollision_2d@.contains_key(q),
        cmb.ccollision_2d@[q] == cma.ccollision_2d@[q],
{
    assert(cma.ccollision_2d@.remove(newid).contains_key(q));
    assert(cmb.ccollision_2d@.remove(newid).contains_key(q));
    assert(cmb.ccollision_2d@.contains_key(q));
    assert(cma.ccollision_2d@.remove(newid)[q] == cma.ccollision_2d@[q]);
    assert(cmb.ccollision_2d@.remove(newid)[q] == cmb.ccollision_2d@[q]);
    assert(cmb.ccollision_2d@.remove(newid)[q] == cma.ccollision_2d@.remove(newid)[q]);
}

/// In the store the match builds, every position record's stored id
/// is its own key.
proof fn lemma_pos_id_is_key(
    cm0: ComponentManager,
    cm1: ComponentManager,
    cm2: ComponentManager,
    cm3: ComponentManager,
    q: usize,
)
    requires
        cm0.cposition_2d@ == Map::<usize, crate::components::CPosition2D>::empty(),
        cm1.cposition_2d@.remove(0) == cm0.cposition_2d@.remove(0),
        cm1.cposition_2d@.contains_key(0) && cm1.cposition_2d@[0].id == 0,
        cm2.cposition_2d@.remove(1) == cm1.cposition_2d@.remove(1),
        cm2.cposition_2d@.contains_key(1) && cm2.cposition_2d@[1].id == 1,
        cm3.cposition_2d@.remove(2) == cm2.cposition_2d@.remove(2),
        cm3.cposition_2d@.contains_key(2) && cm3.cposition_2d@[2].id == 2,
        cm3.cposition_2d@.contains_key(q),
    ensures
        cm3.cposition_2d@[q].id == q,
{
    if q != 2 {
        assert(cm3.cposition_2d@.remove(2).contains_key(q));
        assert(cm2.cposition_2d@.remove(2).contains_key(q));
        assert(cm2.cposition_2d@.contains_key(q));
        assert(cm3.cposition_2d@.remove(2)[q] == cm3.cposition_2d@[q]);
        assert(cm2.cposition_2d@.remove(2)[q] == cm2.cposition_2d@[q]);
        assert(cm3.cposition_2d@[q] == cm2.cposition_2d@[q]);
        if q != 1 {
            assert(cm2.cposition_2d@.remove(1).contains_key(q));
            assert(cm1.cposition_2d@.remove(1).contains_key(q));
            assert(cm1.cposition_2d@.contains_key(q));
            assert(cm2.cposition_2d@.remove(1)[q] == cm2.cposition_2d@[q]);
            assert(cm1.cposition_2d@.remove(1)[q] == cm1.cposition_2d@[q]);
            assert(cm2.cposition_2d@[q] == cm1.cposition_2d@[q]);
            if q != 0 {
                assert(cm1.cposition_2d@.remove(0).contains_key(q));
                assert(cm0.cposition_2d@.remove(0).contains_key(q));
                assert(false);
            }
        }
    }
}

/// In the store the match builds, every entity with a position also
/// has a movement record.
proof fn lemma_ball_named_has_movement(
    cm0: ComponentManager,
    cm1: ComponentManager,
    cm2: ComponentManager,
    cm3: ComponentManager,
    q: usize,
)
    requires
        cm0.cposition_2d@ == Map::<usize, crate::components::CPosition2D>::empty(),
        cm1.cposition_2d@.remove(0) == cm0.cposition_2d@.remove(0),
        cm2.cposition_2d@.remove(1) == cm1.cposition_2d@.remove(1),
        cm3.cposition_2d@.remove(2) == cm2.cposition_2d@.remove(2),
        cm1.cmovement_2d@.contains_key(0),
        cm2.cmovement_2d@.remove(1) == cm1.cmovement_2d@.remove(1),
        cm2.cmovement_2d@.contains_key(1),
        cm3.cmovement_2d@.remove(2) == cm2.cmovement_2d@.remove(2),
        cm3.cmovement_2d@.contains_key(2),
        cm3.cposition_2d@.contains_key(q),
    ensures
        cm3.cmovement_2d@.contains_key(q),
{
    if q != 2 {
        assert(cm3.cposition_2d@.remove(2).contains_key(q));
        assert(cm2.cposition_2d@.remove(2).contains_key(q));
        assert(cm2.cposition_2d@.contains_key(q));
        if q != 1 {
            assert(cm2.cposition_2d@.remove(1).contains_key(q));
            assert(cm1.cposition_2d@.remove(1).contains_key(q));
            assert(cm1.cposition_2d@.contains_key(q));
            if q != 0 {
                assert(cm1.cposition_2d@.remove(0).contains_key(q));
                assert(cm0.cposition_2d@.remove(0).contains_key(q));
                assert(false);
            }
        }
        if q == 0 {
            assert(cm1.cmovement_2d@.remove(1).contains_key(0));
            assert(cm2.cmovement_2d@.remove(1).contains_key(0));
            assert(cm2.cmovement_2d@.contains_key(0));
            assert(cm2.cmovement_2d@.remove(2).contains_key(0));
            assert(cm3.cmovement_2d@.remove(2).contains_key(0));
            assert(cm3.cmovement_2d@.contains_key(0));
        } else {
            assert(cm2.cmovement_2d@.remove(2).contains_key(1));
            assert(cm3.cmovement_2d@.remove(2).contains_key(1));
            assert(cm3.cmovement_2d@.contains_key(1));
        }
    }
}

} // verus!
