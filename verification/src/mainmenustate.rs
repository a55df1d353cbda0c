//! The main-menu screen: a "Play" button, an "Exit" button and a
//! title, with the input handling that navigates to the match or
//! requests termination.

use vstd::prelude::*;
use crate::button;
use crate::componentmanager::{lemma_dom_two, ComponentManager};
use crate::gamestate::{AppContext, ButtonAction, GameStates};
use crate::geometry::{Color, Point, Rect};
use crate::systems::{
    all_button_actions, fill_rect_cmd, has_text_pred, has_texture_pred, text_cmd_ok, DrawCmd,
    SysButtonInput, SysRenderText, SysRenderTexture,
};
use crate::util;
use crate::util::{EventRunner, GameEvent, KeyCode};

verus! {

/// One event's effect on the context while the menu is active: a quit
/// request or Escape stops the game, the P shortcut starts a match.
pub open spec fn menu_input_step(ctx: AppContext, ev: GameEvent) -> AppContext {
    match ev {
        GameEvent::Quit => AppContext { running: false, ..ctx },
        GameEvent::KeyDown { keycode: KeyCode::Escape } => AppContext { running: false, ..ctx },
        GameEvent::KeyDown { keycode: KeyCode::P } => AppContext {
            state: GameStates::Pong,
            ..ctx
        },
        _ => ctx,
    }
}

/// The context after the menu's own input handling of a frame's
/// events, in order.
pub open spec fn menu_input_effect(events: Seq<GameEvent>, ctx: AppContext) -> AppContext
    decreases events.len(),
{
    if events.len() == 0 {
        ctx
    } else {
        menu_input_step(menu_input_effect(events.drop_last(), ctx), events.last())
    }
}

/// Whether an event requests termination from the menu: a window
/// close request or Escape.
pub open spec fn is_stop_event(ev: GameEvent) -> bool {
    ev == GameEvent::Quit || ev == (GameEvent::KeyDown { keycode: KeyCode::Escape })
}

/// The menu's input handling clears the running flag exactly when the
/// frame's events hold a close request or Escape — and never sets it
/// back — so the loop, observing the flag at the top of its next
/// iteration, stops before another frame is rendered.
pub proof fn lemma_menu_input_general(events: Seq<GameEvent>, ctx: AppContext)
    ensures
        (exists|i: int| 0 <= i < events.len() && is_stop_event(#[trigger] events[i]))
            ==> !menu_input_effect(events, ctx).running,
        (forall|i: int| 0 <= i < events.len() ==> !is_stop_event(#[trigger] events[i]))
            ==> menu_input_effect(events, ctx).running == ctx.running,
    decreases events.len(),
{
    if events.len() > 0 {
        let dl = events.drop_last();
        lemma_menu_input_general(dl, ctx);
        assert(forall|i: int| 0 <= i < dl.len() ==> #[trigger] dl[i] == events[i]);
        if exists|i: int| 0 <= i < events.len() && is_stop_event(#[trigger] events[i]) {
            let i = choose|i: int| 0 <= i < events.len() && is_stop_event(#[trigger] events[i]);
            if i < events.len() - 1 {
                assert(is_stop_event(dl[i]));
            }
        }
    }
}

/// The title blit: "Pong" centered at (640, 100), font "arial" at
/// size 144, white.
pub open spec fn title_cmd_ok(cmd: DrawCmd) -> bool {
    &&& cmd matches DrawCmd::Text { content, pos, font, size, color }
    &&& content@ == "Pong"@
    &&& pos == (Point { x: 640, y: 100 })
    &&& font@ == "arial"@
    &&& size == 144u16
    &&& color == Color::spec_white()
}

/// The context after one whole menu frame: the menu's own input
/// handling, then every clicked button's action, in order.
pub open spec fn menu_ctx_after(
    cm: ComponentManager,
    events: Seq<GameEvent>,
    ctx0: AppContext,
) -> AppContext {
    menu_input_effect(events, ctx0).spec_apply_all(
        all_button_actions(cm, cm.id_allocator.model().allocated, events),
    )
}

/// One menu frame's draw list: every textured entity, every label,
/// then the title.
pub open spec fn menu_cmds_ok(cm: ComponentManager, cmds: Seq<DrawCmd>) -> bool {
    let tex = cm.id_allocator.model().allocated.filter(has_texture_pred(cm));
    let txt = cm.id_allocator.model().allocated.filter(has_text_pred(cm));
    &&& cmds.len() == tex.len() + txt.len() + 1
    &&& forall|j: int| 0 <= j < tex.len() ==> cmds[j] == fill_rect_cmd(cm, tex[j])
    &&& forall|j: int| 0 <= j < txt.len() ==> text_cmd_ok(cm, txt[j], #[trigger] cmds[tex.len() + j])
    &&& title_cmd_ok(cmds[cmds.len() - 1])
}

/// The main-menu screen: its own component store and the button-input,
/// texture-render and text-render systems.
pub struct MainMenuState {
    pub cmanager: ComponentManager,
    pub render_system: SysRenderTexture,
    pub button_input_system: SysButtonInput,
    pub text_render_system: SysRenderText,
}

impl MainMenuState {
    /// Every button has the collision box and position a click test
    /// reads.
    pub open spec fn wf(self) -> bool {
        forall|id: usize| #[trigger]
            self.cmanager.cbutton_info@.contains_key(id)
                ==> self.cmanager.cposition_2d@.contains_key(id)
                && self.cmanager.ccollision_2d@.contains_key(id)
    }

    /// Builds the screen: a "Play" button centered at (640, 360) that
    /// navigates to the match, and an "Exit" button centered at
    /// (640, 472) that requests termination, both 192 by 96 and white.
    pub fn new() -> (s: MainMenuState)
        ensures
            s.wf(),
            s.cmanager.id_allocator.inv(),
            s.cmanager.id_allocator.model().allocated == seq![0usize, 1usize],
            s.cmanager.cbutton_info@.contains_key(0) && s.cmanager.cbutton_info@[0].callback
                == Some(ButtonAction::NavigateTo(GameStates::Pong))
                && s.cmanager.cbutton_info@[0].text@ == "Play"@,
            s.cmanager.cbutton_info@.contains_key(1) && s.cmanager.cbutton_info@[1].callback
                == Some(ButtonAction::RequestExit) && s.cmanager.cbutton_info@[1].text@
                == "Exit"@,
            s.cmanager.cposition_2d@.contains_key(0) && s.cmanager.cposition_2d@[0].pos == (Point {
                x: 640,
                y: 360,
            }),
            s.cmanager.cposition_2d@.contains_key(1) && s.cmanager.cposition_2d@[1].pos == (Point {
                x: 640,
                y: 472,
            }),
            s.cmanager.ccollision_2d@.contains_key(0) && s.cmanager.ccollision_2d@[0].size == (
                192u32,
                96u32,
            ),
            s.cmanager.ccollision_2d@.contains_key(1) && s.cmanager.ccollision_2d@[1].size == (
                192u32,
                96u32,
            ),
            s.cmanager.ctexture@.contains_key(0) && s.cmanager.ctexture@[0].size == (192u32, 96u32)
                && s.cmanager.ctexture@[0].color == Color::spec_white(),
            s.cmanager.ctexture@.contains_key(1) && s.cmanager.ctexture@[1].size == (192u32, 96u32)
                && s.cmanager.ctexture@[1].color == Color::spec_white(),
            s.cmanager.ctext@.contains_key(0) && s.cmanager.ctext@[0].text@ == "Play"@,
            s.cmanager.ctext@.contains_key(1) && s.cmanager.ctext@[1].text@ == "Exit"@,
            s.cmanager.cmovement_2d@ == Map::<usize, crate::components::CMovement2D>::empty(),
            s.cmanager.cpaddle_info@ == Map::<usize, crate::components::CPaddleInfo>::empty(),
            s.cmanager.cbutton_info@.dom() == set![0usize, 1usize],
            s.cmanager.cposition_2d@.dom() == set![0usize, 1usize],
            s.cmanager.ccollision_2d@.dom() == set![0usize, 1usize],
            s.cmanager.ctexture@.dom() == set![0usize, 1usize],
            s.cmanager.ctext@.dom() == set![0usize, 1usize],
    {
        let cmanager: ComponentManager = util::create_component_manager();

        let srender = SysRenderTexture::new();
        let sbutton_input = SysButtonInput::new();
        let srendertext = SysRenderText::new();

        let mut mms = MainMenuState {
            cmanager,
            render_system: srender,
            button_input_system: sbutton_input,
            text_render_system: srendertext,
        };

        mms.init();

        mms
    }

    fn init(&mut self)
        requires
            old(self).cmanager.is_fresh(),
        ensures
            final(self).wf(),
            final(self).cmanager.id_allocator.inv(),
            final(self).cmanager.id_allocator.model().allocated == seq![0usize, 1usize],
            final(self).cmanager.cbutton_info@.contains_key(0)
                && final(self).cmanager.cbutton_info@[0].callback == Some(
                ButtonAction::NavigateTo(GameStates::Pong),
            ) && final(self).cmanager.cbutton_info@[0].text@ == "Play"@,
            final(self).cmanager.cbutton_info@.contains_key(1)
                && final(self).cmanager.cbutton_info@[1].callback == Some(ButtonAction::RequestExit)
                && final(self).cmanager.cbutton_info@[1].text@ == "Exit"@,
            final(self).cmanager.cposition_2d@.contains_key(0)
                && final(self).cmanager.cposition_2d@[0].pos == (Point { x: 640, y: 360 }),
            final(self).cmanager.cposition_2d@.contains_key(1)
                && final(self).cmanager.cposition_2d@[1].pos == (Point { x: 640, y: 472 }),
            final(self).cmanager.ccollision_2d@.contains_key(0)
                && final(self).cmanager.ccollision_2d@[0].size == (192u32, 96u32),
            final(self).cmanager.ccollision_2d@.contains_key(1)
                && final(self).cmanager.ccollision_2d@[1].size == (192u32, 96u32),
            final(self).cmanager.ctexture@.contains_key(0)
                && final(self).cmanager.ctexture@[0].size == (192u32, 96u32)
                && final(self).cmanager.ctexture@[0].color == Color::spec_white(),
            final(self).cmanager.ctexture@.contains_key(1)
                && final(self).cmanager.ctexture@[1].size == (192u32, 96u32)
                && final(self).cmanager.ctexture@[1].color == Color::spec_white(),
            final(self).cmanager.ctext@.contains_key(0) && final(self).cmanager.ctext@[0].text@
                == "Play"@,
            final(self).cmanager.ctext@.contains_key(1) && final(self).cmanager.ctext@[1].text@
                == "Exit"@,
            final(self).cmanager.cmovement_2d@ == Map::<
                usize,
                crate::components::CMovement2D,
            >::empty(),
            final(self).cmanager.cpaddle_info@ == Map::<
                usize,
                crate::components::CPaddleInfo,
            >::empty(),
            final(self).cmanager.cbutton_info@.dom() == set![0usize, 1usize],
            final(self).cmanager.cposition_2d@.dom() == set![0usize, 1usize],
            final(self).cmanager.ccollision_2d@.dom() == set![0usize, 1usize],
            final(self).cmanager.ctexture@.dom() == set![0usize, 1usize],
            final(self).cmanager.ctext@.dom() == set![0usize, 1usize],
    {
        let main_menu_rect = Rect::from_center(Point::new(640, 360), 192, 96);
        button::create(
            &mut self.cmanager,
            "bvplayer",
            main_menu_rect,
            Color::white(),
            "Play",
            Some(ButtonAction::NavigateTo(GameStates::Pong)),
        );
        let ghost cm1 = self.cmanager;

        let exit_rect = Rect::from_center(Point::new(640, 472), 192, 96);
        button::create(
            &mut self.cmanager,
            "bexit",
            exit_rect,
            Color::white(),
            "Exit",
            Some(ButtonAction::RequestExit),
        );
        proof {
            let cm0 = old(self).cmanager;
            let cm2 = self.cmanager;
            assert(cm1.id_allocator.model().allocated =~= seq![0usize]);
            assert(cm2.id_allocator.model().allocated =~= seq![0usize, 1usize]);

            assert(cm2.cbutton_info@.contains_key(0) && cm2.cbutton_info@[0]
                == cm1.cbutton_info@[0]) by {
                assert(cm2.cbutton_info@.remove(1).contains_key(0) == cm1.cbutton_info@.remove(
                    1,
                ).contains_key(0));
                assert(cm2.cbutton_info@.remove(1)[0] == cm1.cbutton_info@.remove(1)[0]);
            }
            assert(cm2.cposition_2d@.contains_key(0) && cm2.cposition_2d@[0]
                == cm1.cposition_2d@[0]) by {
                assert(cm2.cposition_2d@.remove(1).contains_key(0) == cm1.cposition_2d@.remove(
                    1,
                ).contains_key(0));
                assert(cm2.cposition_2d@.remove(1)[0] == cm1.cposition_2d@.remove(1)[0]);
            }
            assert(cm2.ccollision_2d@.contains_key(0) && cm2.ccollision_2d@[0]
                == cm1.ccollision_2d@[0]) by {
                assert(cm2.ccollision_2d@.remove(1).contains_key(0) == cm1.ccollision_2d@.remove(
                    1,
                ).contains_key(0));
                assert(cm2.ccollision_2d@.remove(1)[0] == cm1.ccollision_2d@.remove(1)[0]);
            }
            assert(cm2.ctexture@.contains_key(0) && cm2.ctexture@[0] == cm1.ctexture@[0]) by {
                assert(cm2.ctexture@.remove(1).contains_key(0) == cm1.ctexture@.remove(
                    1,
                ).contains_key(0));
                assert(cm2.ctexture@.remove(1)[0] == cm1.ctexture@.remove(1)[0]);
            }
            assert(cm2.ctext@.contains_key(0) && cm2.ctext@[0] == cm1.ctext@[0]) by {
                assert(cm2.ctext@.remove(1).contains_key(0) == cm1.ctext@.remove(1).contains_key(
                    0,
                ));
                assert(cm2.ctext@.remove(1)[0] == cm1.ctext@.remove(1)[0]);
            }

            lemma_dom_two(cm0.cbutton_info@, cm1.cbutton_info@, cm2.cbutton_info@);
            lemma_dom_two(cm0.cposition_2d@, cm1.cposition_2d@, cm2.cposition_2d@);
            lemma_dom_two(cm0.ccollision_2d@, cm1.ccollision_2d@, cm2.ccollision_2d@);
            lemma_dom_two(cm0.ctexture@, cm1.ctexture@, cm2.ctexture@);
            lemma_dom_two(cm0.ctext@, cm1.ctext@, cm2.ctext@);

            assert forall|id: usize| #[trigger]
                cm2.cbutton_info@.contains_key(id) implies cm2.cposition_2d@.contains_key(id)
                && cm2.ccollision_2d@.contains_key(id) by {
                if id != 1 {
                    assert(cm2.cbutton_info@.remove(1).contains_key(id) == cm1.cbutton_info@.remove(
                        1,
                    ).contains_key(id));
                    assert(cm1.cbutton_info@.contains_key(id));
                    if id != 0 {
                        assert(cm1.cbutton_info@.remove(0).contains_key(id)
                            == cm0.cbutton_info@.remove(0).contains_key(id));
                        assert(false);
                    }
                }
            }
        }
    }

    fn process_input(&self, event_runner: &EventRunner, ctx: &mut AppContext)
        ensures
            *final(ctx) == menu_input_effect(event_runner.event_list@, *old(ctx)),
    {
        let ghost events = event_runner.event_list@;
        let n = event_runner.event_list.len();
        let mut i: usize = 0;
        while i < n
            invariant
                n == events.len(),
                event_runner.event_list@ == events,
                i <= n,
                *ctx == menu_input_effect(events.take(i as int), *old(ctx)),
            decreases n - i,
        {
            proof {
                assert(events.take(i + 1 as int).drop_last() =~= events.take(i as int));
                assert(events.take(i + 1 as int).last() == events[i as int]);
            }
            let event = event_runner.event_list[i];
            match event {
                GameEvent::Quit => {
                    util::set_play(ctx, false);
                },
                GameEvent::KeyDown { keycode: KeyCode::Escape } => {
                    util::set_play(ctx, false);
                },
                GameEvent::KeyDown { keycode: KeyCode::P } => {
                    util::change_gamestate(ctx, GameStates::Pong);
                },
                _ => {},
            }
            i += 1;
        }
        proof {
            assert(events.take(n as int) =~= events);
        }
    }

    /// One menu frame: handles the frame's events (Escape or a close
    /// request stop the game, P starts a match), runs button input
    /// (applying the clicked buttons' actions to the context), and
    /// returns the frame's draw commands: every textured entity, every
    /// label, then the title.
    pub fn execute(&mut self, dt_ms: u32, event_runner: &EventRunner, ctx: &mut AppContext) -> (cmds:
        Vec<DrawCmd>)
        requires
            old(self).wf(),
        ensures
            *final(self) == *old(self),
            *final(ctx) == menu_ctx_after(old(self).cmanager, event_runner.event_list@, *old(ctx)),
            menu_cmds_ok(old(self).cmanager, cmds@),
    {
        self.process_input(event_runner, ctx);
        let actions = self.button_input_system.execute(&self.cmanager, event_runner);
        ctx.apply_all(&actions);

        let mut cmds = self.render_system.execute(&self.cmanager);
        let ghost tex_cmds = cmds@;
        let mut text_cmds = self.text_render_system.execute(&self.cmanager);
        let ghost txt_cmds = text_cmds@;
        cmds.append(&mut text_cmds);

        cmds.push(
            DrawCmd::Text {
                content: "Pong".to_owned(),
                pos: Point::new(640, 100),
                font: "arial".to_owned(),
                size: 144,
                color: Color::white(),
            },
        );
        proof {
            let cm = old(self).cmanager;
            let tex = cm.id_allocator.model().allocated.filter(has_texture_pred(cm));
            let txt = cm.id_allocator.model().allocated.filter(has_text_pred(cm));
            assert(cmds@.len() == tex.len() + txt.len() + 1);
            assert forall|j: int| 0 <= j < txt.len() implies text_cmd_ok(
                cm,
                txt[j],
                #[trigger] cmds@[tex.len() + j],
            ) by {
                assert(cmds@[tex.len() + j] == txt_cmds[j]);
            }
        }
        cmds
    }
}

} // verus!
