//! The application's verified core: both screens, the context that
//! selects the active one, and what one iteration of the fixed-rate
//! frame loop decides. The binary around it paces the loop, drains
//! the input backend, performs the returned draw commands and
//! presents the frame.

use vstd::prelude::*;
use crate::gamestate::{AppContext, GameStates};
use crate::mainmenustate::{menu_cmds_ok, menu_ctx_after, MainMenuState};
use crate::pongstate::{pong_frame_effect, pong_input_effect, scores_below_ceiling, PongState};
use crate::systems::DrawCmd;
use crate::util::{EventRunner, GameEvent};

verus! {

/// The playfield is the fixed 1280 by 720 window.
pub const WINDOW_WIDTH: u32 = 1280;

/// See `WINDOW_WIDTH`.
pub const WINDOW_HEIGHT: u32 = 720;

/// What one frame-loop iteration decided: stop before anything is
/// cleared, drawn or presented (the running flag was false); abort
/// (the current screen tag has no registered screen, a programming
/// error); or render the returned commands and present the frame.
pub enum FrameOutcome {
    Stopped,
    Fatal,
    Rendered(Vec<DrawCmd>),
}

/// The whole application: the two registered screens and the context
/// naming the active one. No screen is registered for the reserved
/// pause tag.
pub struct App {
    pub menu: MainMenuState,
    pub pong: PongState,
    pub ctx: AppContext,
}

impl App {
    /// Both screens keep the shape their frames rely on; `now_ms` is
    /// the current reading of the clock the AI timers were set from.
    pub open spec fn wf(self, now_ms: u64) -> bool {
        self.menu.wf() && self.pong.wf(now_ms)
    }

    /// The application at startup: the main menu active, the running
    /// flag set, both screens freshly built.
    pub fn new(now_ms: u64) -> (app: App)
        ensures
            app.wf(now_ms),
            app.ctx == (AppContext { state: GameStates::MainMenu, running: true }),
            app.pong.scoring_system.score_p1 == 0,
            app.pong.scoring_system.score_p2 == 0,
    {
        App { menu: MainMenuState::new(), pong: PongState::new(now_ms), ctx: AppContext::new() }
    }

    /// One frame-loop iteration, after the input buffer was
    /// refreshed: selecting the reserved unregistered tag is fatal;
    /// else a cleared running flag stops the loop with no frame
    /// rendered after termination was requested; else the active
    /// screen runs and its draw commands come back to be presented.
    pub fn frame(&mut self, dt_ms: u32, now_ms: u64, event_runner: &EventRunner) -> (r:
        FrameOutcome)
        requires
            old(self).wf(now_ms),
            scores_below_ceiling(old(self).pong, dt_ms, WINDOW_WIDTH, WINDOW_HEIGHT),
        ensures
            final(self).wf(now_ms),
            old(self).ctx.state == GameStates::PauseMenu ==> (r is Fatal && *final(self) == *old(
                self,
            )),
            old(self).ctx.state != GameStates::PauseMenu && !old(self).ctx.running ==> (r
                is Stopped && *final(self) == *old(self)),
            old(self).ctx.state == GameStates::MainMenu && old(self).ctx.running ==> ({
                &&& final(self).menu == old(self).menu
                &&& final(self).pong == old(self).pong
                &&& final(self).ctx == menu_ctx_after(
                    old(self).menu.cmanager,
                    event_runner.event_list@,
                    old(self).ctx,
                )
                &&& (r matches FrameOutcome::Rendered(cmds) && menu_cmds_ok(
                    old(self).menu.cmanager,
                    cmds@,
                ))
            }),
            old(self).ctx.state == GameStates::Pong && old(self).ctx.running ==> ({
                &&& final(self).menu == old(self).menu
                &&& final(self).ctx == pong_input_effect(event_runner.event_list@, old(self).ctx)
                &&& (r matches FrameOutcome::Rendered(cmds) && pong_frame_effect(
                    old(self).pong,
                    final(self).pong,
                    cmds@,
                    dt_ms,
                    now_ms,
                    event_runner.event_list@,
                    WINDOW_WIDTH,
                    WINDOW_HEIGHT,
                ))
            }),
    {
        match self.ctx.state {
            GameStates::PauseMenu => FrameOutcome::Fatal,
            GameStates::MainMenu => {
                if !self.ctx.running {
                    return FrameOutcome::Stopped;
                }
                let cmds = self.menu.execute(dt_ms, event_runner, &mut self.ctx);
                FrameOutcome::Rendered(cmds)
            },
            GameStates::Pong => {
                if !self.ctx.running {
                    return FrameOutcome::Stopped;
                }
                let cmds = self.pong.execute(
                    dt_ms,
                    now_ms,
                    event_runner,
                    &mut self.ctx,
                    WINDOW_WIDTH,
                    WINDOW_HEIGHT,
                );
                FrameOutcome::Rendered(cmds)
            },
        }
    }
}

/// Starting in the main menu with the game running, a frame whose
/// only event is a left click at the center of the "Play" button
/// leaves the game running and switches the active screen to the
/// match, which the loop picks up at its next iteration.
pub proof fn lemma_play_click_switches_to_match(menu: MainMenuState, events: Seq<GameEvent>)
    requires
        menu.cmanager.id_allocator.model().allocated == seq![0usize, 1usize],
        menu.cmanager.cbutton_info@.contains_key(0),
        menu.cmanager.cbutton_info@[0].callback == Some(
            crate::gamestate::ButtonAction::NavigateTo(GameStates::Pong),
        ),
        menu.cmanager.cbutton_info@.contains_key(1),
        menu.cmanager.cbutton_info@[1].callback == Some(
            crate::gamestate::ButtonAction::RequestExit,
        ),
        menu.cmanager.cposition_2d@[0].pos == (crate::geometry::Point { x: 640, y: 360 }),
        menu.cmanager.cposition_2d@[1].pos == (crate::geometry::Point { x: 640, y: 472 }),
        menu.cmanager.ccollision_2d@[0].size == (192u32, 96u32),
        menu.cmanager.ccollision_2d@[1].size == (192u32, 96u32),
        events == seq![
            GameEvent::MouseButtonDown { mouse_btn: crate::util::MouseBtn::Left, x: 640, y: 360 },
        ],
    ensures
        menu_ctx_after(
            menu.cmanager,
            events,
            AppContext { state: GameStates::MainMenu, running: true },
        ) == (AppContext { state: GameStates::Pong, running: true }),
{
    let cm = menu.cmanager;
    let ctx0 = AppContext { state: GameStates::MainMenu, running: true };
    let click = GameEvent::MouseButtonDown {
        mouse_btn: crate::util::MouseBtn::Left,
        x: 640,
        y: 360,
    };
    let play = crate::gamestate::ButtonAction::NavigateTo(GameStates::Pong);

    // The menu's own input handling ignores a mouse press.
    assert(events.drop_last() =~= Seq::<GameEvent>::empty());
    assert(events.last() == click);
    assert(crate::mainmenustate::menu_input_effect(events.drop_last(), ctx0) == ctx0);
    assert(crate::mainmenustate::menu_input_effect(events, ctx0) == ctx0);

    // The click lands inside the Play button's box and outside the
    // Exit button's box.
    let rect0 = crate::geometry::Rect {
        cx: cm.cposition_2d@[0].pos.x,
        cy: cm.cposition_2d@[0].pos.y,
        w: cm.ccollision_2d@[0].size.0,
        h: cm.ccollision_2d@[0].size.1,
    };
    let rect1 = crate::geometry::Rect {
        cx: cm.cposition_2d@[1].pos.x,
        cy: cm.cposition_2d@[1].pos.y,
        w: cm.ccollision_2d@[1].size.0,
        h: cm.ccollision_2d@[1].size.1,
    };
    assert(rect0.spec_contains(640, 360));
    assert(!rect1.spec_contains(640, 360));
    assert(crate::systems::is_click_inside(click, rect0));
    assert(!crate::systems::is_click_inside(click, rect1));

    assert(crate::systems::click_actions(events, rect0, Some(play)) =~= seq![play]) by {
        assert(crate::systems::click_actions(events.drop_last(), rect0, Some(play))
            =~= Seq::<crate::gamestate::ButtonAction>::empty());
    }
    assert(crate::systems::click_actions(
        events,
        rect1,
        Some(crate::gamestate::ButtonAction::RequestExit),
    ) =~= Seq::<crate::gamestate::ButtonAction>::empty()) by {
        assert(crate::systems::click_actions(
            events.drop_last(),
            rect1,
            Some(crate::gamestate::ButtonAction::RequestExit),
        ) =~= Seq::<crate::gamestate::ButtonAction>::empty());
    }

    // Concatenated over both buttons, the frame's actions are exactly
    // one navigation to the match.
    let ids = cm.id_allocator.model().allocated;
    assert(ids.drop_last() =~= seq![0usize]);
    assert(ids.drop_last().drop_last() =~= Seq::<usize>::empty());
    assert(ids.drop_last().last() == 0usize);
    assert(ids.last() == 1usize);
    assert(crate::systems::all_button_actions(cm, ids.drop_last().drop_last(), events)
        =~= Seq::<crate::gamestate::ButtonAction>::empty());
    assert(crate::systems::all_button_actions(cm, ids.drop_last(), events) =~= seq![play]);
    assert(crate::systems::all_button_actions(cm, ids, events) =~= seq![play]);

    assert(seq![play].drop_last() =~= Seq::<crate::gamestate::ButtonAction>::empty());
    assert(seq![play].last() == play);
    assert(ctx0.spec_apply_all(seq![play].drop_last()) == ctx0);
    assert(ctx0.spec_apply_all(seq![play]) == ctx0.spec_apply(play));
}

/// From the match screen, an Escape key event (like a window-close
/// request or the P shortcut) switches the context back to the main
/// menu for the next iteration, without stopping the game.
pub proof fn lemma_escape_returns_to_menu(events: Seq<GameEvent>, ctx: AppContext)
    requires
        events == seq![
            GameEvent::KeyDown { keycode: crate::util::KeyCode::Escape },
        ],
    ensures
        crate::pongstate::pong_input_effect(events, ctx) == (AppContext {
            state: GameStates::MainMenu,
            running: ctx.running,
        }),
{
    assert(events.drop_last() =~= Seq::<GameEvent>::empty());
    assert(events.last() == GameEvent::KeyDown { keycode: crate::util::KeyCode::Escape });
    assert(crate::pongstate::pong_input_effect(events.drop_last(), ctx) == ctx);
}

} // verus!
