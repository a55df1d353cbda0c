use pong::application::{App, FrameOutcome};
use pong::fontmanager::FontManager;
use pong::gamestate::GameStates;
use pong::geometry::{Color, Point, Rect};
use pong::systems::DrawCmd;
use pong::util;
use pong::util::{EventRunner, GameEvent, KeyCode, MouseBtn};

#[test]
fn play_button_switches_to_the_match_screen() {
    let mut app = App::new(0);
    assert_eq!(app.ctx.state, GameStates::MainMenu);
    assert!(app.ctx.running);

    let mut events = EventRunner::new();
    events.refresh(vec![GameEvent::MouseButtonDown { mouse_btn: MouseBtn::Left, x: 640, y: 360 }]);
    let outcome = app.frame(16, 0, &events);
    assert!(matches!(outcome, FrameOutcome::Rendered(_)));
    assert_eq!(app.ctx.state, GameStates::Pong);
    assert!(app.ctx.running);

    events.refresh(vec![GameEvent::KeyDown { keycode: KeyCode::Escape }]);
    let outcome = app.frame(16, 20, &events);
    assert!(matches!(outcome, FrameOutcome::Rendered(_)));
    assert_eq!(app.ctx.state, GameStates::MainMenu);
    assert!(app.ctx.running);
}

#[test]
fn exit_button_requests_termination() {
    let mut app = App::new(0);
    let mut events = EventRunner::new();
    events.refresh(vec![GameEvent::MouseButtonDown { mouse_btn: MouseBtn::Left, x: 640, y: 472 }]);
    app.frame(16, 0, &events);
    assert!(!app.ctx.running);

    // The next iteration stops before anything is rendered.
    events.refresh(vec![]);
    let outcome = app.frame(16, 16, &events);
    assert!(matches!(outcome, FrameOutcome::Stopped));
}

#[test]
fn cleared_running_flag_stops_before_the_next_frame() {
    let mut app = App::new(0);
    app.ctx.running = false;
    let events = EventRunner::new();
    let outcome = app.frame(16, 0, &events);
    assert!(matches!(outcome, FrameOutcome::Stopped));
    assert_eq!(app.ctx.state, GameStates::MainMenu);
}

#[test]
fn escape_in_the_menu_requests_termination() {
    let mut app = App::new(0);
    let mut events = EventRunner::new();
    events.refresh(vec![GameEvent::KeyDown { keycode: KeyCode::Escape }]);
    app.frame(16, 0, &events);
    assert!(!app.ctx.running);
}

#[test]
fn p_key_toggles_between_the_screens() {
    let mut app = App::new(0);
    let mut events = EventRunner::new();
    events.refresh(vec![GameEvent::KeyDown { keycode: KeyCode::P }]);
    app.frame(16, 0, &events);
    assert_eq!(app.ctx.state, GameStates::Pong);
    events.refresh(vec![GameEvent::KeyDown { keycode: KeyCode::P }]);
    app.frame(16, 16, &events);
    assert_eq!(app.ctx.state, GameStates::MainMenu);
}

#[test]
fn unregistered_screen_tag_is_fatal() {
    let mut app = App::new(0);
    app.ctx.state = GameStates::PauseMenu;
    let events = EventRunner::new();
    let outcome = app.frame(16, 0, &events);
    assert!(matches!(outcome, FrameOutcome::Fatal));
}

#[test]
fn menu_frame_draws_buttons_labels_and_title() {
    let mut app = App::new(0);
    let events = EventRunner::new();
    let outcome = app.frame(16, 0, &events);
    let cmds = match outcome {
        FrameOutcome::Rendered(cmds) => cmds,
        _ => panic!("expected a rendered frame"),
    };
    // Two button rectangles, two labels, one title.
    assert_eq!(cmds.len(), 5);
    assert_eq!(
        cmds[0],
        DrawCmd::FillRect { rect: Rect { cx: 640, cy: 360, w: 192, h: 96 }, color: Color::white() },
    );
    assert_eq!(
        cmds[1],
        DrawCmd::FillRect { rect: Rect { cx: 640, cy: 472, w: 192, h: 96 }, color: Color::white() },
    );
    match &cmds[2] {
        DrawCmd::Text { content, pos, font, size, color } => {
            assert_eq!(content, "Play");
            assert_eq!(*pos, Point::new(640, 360));
            assert_eq!(font, "arial");
            assert_eq!(*size, 36);
            assert_eq!(*color, Color::black());
        },
        _ => panic!("expected the Play label"),
    }
    match &cmds[4] {
        DrawCmd::Text { content, pos, size, .. } => {
            assert_eq!(content, "Pong");
            assert_eq!(*pos, Point::new(640, 100));
            assert_eq!(*size, 144);
        },
        _ => panic!("expected the title"),
    }
}

#[test]
fn match_frame_draws_scores_entities_and_divider() {
    let mut app = App::new(0);
    app.ctx.state = GameStates::Pong;
    let events = EventRunner::new();
    let outcome = app.frame(0, 0, &events);
    let cmds = match outcome {
        FrameOutcome::Rendered(cmds) => cmds,
        _ => panic!("expected a rendered frame"),
    };
    // Two score texts, three entity rectangles, ten divider dashes.
    assert_eq!(cmds.len(), 15);
    match &cmds[0] {
        DrawCmd::Text { content, pos, .. } => {
            assert_eq!(content, "0");
            assert_eq!(*pos, Point::new(540, 100));
        },
        _ => panic!("expected the first score"),
    }
    assert_eq!(
        cmds[2],
        DrawCmd::FillRect { rect: Rect { cx: 64, cy: 360, w: 10, h: 100 }, color: Color::white() },
    );
    assert_eq!(
        cmds[5],
        DrawCmd::FillRect { rect: Rect { cx: 640, cy: 25, w: 10, h: 50 }, color: Color::white() },
    );
    assert_eq!(
        cmds[14],
        DrawCmd::FillRect { rect: Rect { cx: 640, cy: 700, w: 10, h: 50 }, color: Color::white() },
    );
}

#[test]
fn font_cache_loads_once_and_hits_after() {
    let mut fm = FontManager::new();
    // First request: not cached, the backend owes one load attempt.
    assert!(!fm.get_font("arial", 36));
    fm.load_font("arial", 36, true);
    // Second request: a cache hit, no further load attempt.
    assert!(fm.get_font("arial", 36));
    // The same name at another size is its own cache entry.
    assert!(!fm.get_font("arial", 144));
}

#[test]
fn missing_font_renders_nothing_and_does_not_abort() {
    let mut fm = FontManager::new();
    fm.load_font("nofont", 100, false);
    assert!(!fm.get_font("nofont", 100));
    let cmd = fm.render_text("hi", Point::new(1, 2), "nofont", 100, Color::white());
    assert!(cmd.is_none());
}

#[test]
fn cached_font_renders_the_requested_blit() {
    let mut fm = FontManager::new();
    fm.load_font("arial", 72, true);
    let cmd = fm.render_text("Exit", Point::new(9, 8), "arial", 72, Color::black());
    match cmd {
        Some(DrawCmd::Text { content, pos, font, size, color }) => {
            assert_eq!(content, "Exit");
            assert_eq!(pos, Point::new(9, 8));
            assert_eq!(font, "arial");
            assert_eq!(size, 72);
            assert_eq!(color, Color::black());
        },
        _ => panic!("expected a text command"),
    }
}

#[test]
fn font_path_follows_the_template() {
    assert_eq!(FontManager::font_path("arial"), "fonts/arial.ttf");
}

#[test]
fn random_direction_is_a_diagonal_unit_step() {
    for _ in 0..32 {
        let (x, y) = util::random_direction();
        assert!(x == 1 || x == -1);
        assert!(y == 1 || y == -1);
    }
}

#[test]
fn geometry_contains_and_intersects() {
    let r = Rect { cx: 640, cy: 360, w: 192, h: 96 };
    assert!(r.contains_point(Point::new(640, 360)));
    assert!(r.contains_point(Point::new(544, 312)));
    assert!(r.contains_point(Point::new(736, 408)));
    assert!(!r.contains_point(Point::new(543, 360)));

    let a = Rect { cx: 0, cy: 0, w: 10, h: 10 };
    let b = Rect { cx: 9, cy: 0, w: 10, h: 10 };
    let c = Rect { cx: 10, cy: 0, w: 10, h: 10 };
    assert!(a.has_intersection(&b));
    assert!(!a.has_intersection(&c));
}
