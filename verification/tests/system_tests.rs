use pong::componentmanager::ComponentManager;
use pong::components::{CButtonInfo, CCollision2D, CMovement2D, CPaddleInfo, CPosition2D};
use pong::gamestate::{ButtonAction, GameStates};
use pong::geometry::{Color, Point, Rect};
use pong::paddle::Direction;
use pong::systems::{
    u8_to_string, DrawCmd, SysBallMovement, SysButtonInput, SysPaddleMovement, SysScoring,
};
use pong::util::{EventRunner, GameEvent, KeyCode, MouseBtn};

fn insert_ball(cm: &mut ComponentManager, pos: Point, dir_x: i32, dir_y: i32) -> usize {
    let id = cm.id_allocator.get_number();
    cm.cposition_2d.insert(id, CPosition2D { id, name: String::from("ball"), pos });
    cm.cmovement_2d.insert(
        id,
        CMovement2D { id, name: String::from("ball"), speed: 540, x: dir_x, y: dir_y },
    );
    cm.ccollision_2d.insert(id, CCollision2D { id, name: String::from("ball"), size: (10, 10) });
    id
}

fn insert_paddle(cm: &mut ComponentManager, pos: Point, is_ai: bool, timer: u64) -> usize {
    let id = cm.id_allocator.get_number();
    cm.cposition_2d.insert(id, CPosition2D { id, name: String::from("paddle"), pos });
    cm.cmovement_2d.insert(
        id,
        CMovement2D { id, name: String::from("paddle"), speed: 540, x: 0, y: 0 },
    );
    cm.ccollision_2d.insert(
        id,
        CCollision2D { id, name: String::from("paddle"), size: (10, 100) },
    );
    cm.cpaddle_info.insert(
        id,
        CPaddleInfo {
            id,
            name: String::from("paddle"),
            direction: Direction::Stationary,
            ai_delay_timer: timer,
            ai_delay: 125,
            is_ai,
        },
    );
    id
}

#[test]
fn ball_bounces_off_the_top_wall() {
    let mut cm = ComponentManager::new();
    let id = insert_ball(&mut cm, Point::new(640, 2), 1, -1);
    SysBallMovement::new().move_ball(&mut cm, id, 0, 720);
    assert_eq!(cm.cposition_2d.get(&id).unwrap().pos, Point::new(640, 5));
    assert_eq!(cm.cmovement_2d.get(&id).unwrap().y, 1);
}

#[test]
fn ball_bounces_off_the_bottom_wall() {
    let mut cm = ComponentManager::new();
    let id = insert_ball(&mut cm, Point::new(640, 719), 1, 1);
    SysBallMovement::new().move_ball(&mut cm, id, 0, 720);
    assert_eq!(cm.cposition_2d.get(&id).unwrap().pos, Point::new(640, 715));
    assert_eq!(cm.cmovement_2d.get(&id).unwrap().y, -1);
}

#[test]
fn ball_advances_by_direction_times_speed_times_time() {
    let mut cm = ComponentManager::new();
    let id = insert_ball(&mut cm, Point::new(400, 300), 1, 1);
    // 540 px/sec over 100 ms is 54 whole pixels.
    SysBallMovement::new().move_ball(&mut cm, id, 100, 720);
    assert_eq!(cm.cposition_2d.get(&id).unwrap().pos, Point::new(454, 354));
}

#[test]
fn ball_missing_a_record_is_skipped() {
    let mut cm = ComponentManager::new();
    let id = cm.id_allocator.get_number();
    cm.cposition_2d.insert(
        id,
        CPosition2D { id, name: String::from("ball"), pos: Point::new(1, 1) },
    );
    SysBallMovement::new().move_ball(&mut cm, id, 100, 720);
    assert_eq!(cm.cposition_2d.get(&id).unwrap().pos, Point::new(1, 1));
}

#[test]
fn overlapping_paddle_inverts_horizontal_direction_once() {
    let mut cm = ComponentManager::new();
    let ball = insert_ball(&mut cm, Point::new(600, 360), 1, 1);
    insert_paddle(&mut cm, Point::new(600, 360), false, 0);
    SysBallMovement::new().move_ball(&mut cm, ball, 0, 720);
    assert_eq!(cm.cmovement_2d.get(&ball).unwrap().x, -1);
}

#[test]
fn distant_paddle_leaves_horizontal_direction_alone() {
    let mut cm = ComponentManager::new();
    let ball = insert_ball(&mut cm, Point::new(600, 360), 1, 1);
    insert_paddle(&mut cm, Point::new(64, 360), false, 0);
    SysBallMovement::new().move_ball(&mut cm, ball, 0, 720);
    assert_eq!(cm.cmovement_2d.get(&ball).unwrap().x, 1);
}

#[test]
fn two_overlapping_paddles_flip_once_each() {
    let mut cm = ComponentManager::new();
    let ball = insert_ball(&mut cm, Point::new(600, 360), 1, 1);
    insert_paddle(&mut cm, Point::new(598, 360), false, 0);
    insert_paddle(&mut cm, Point::new(602, 360), false, 0);
    SysBallMovement::new().move_ball(&mut cm, ball, 0, 720);
    // One flip per intersecting paddle: two flips cancel out.
    assert_eq!(cm.cmovement_2d.get(&ball).unwrap().x, 1);
}

#[test]
fn ai_paddle_chases_the_ball() {
    let events = EventRunner::new();
    let sys = SysPaddleMovement::new();

    // Ball five pixels above the paddle: move up.
    let mut cm = ComponentManager::new();
    insert_ball(&mut cm, Point::new(640, 355), 1, 1);
    let p = insert_paddle(&mut cm, Point::new(1216, 360), true, 0);
    sys.move_paddle(&mut cm, p, 0, 200, &events, 720);
    assert_eq!(cm.cpaddle_info.get(&p).unwrap().direction, Direction::Up);

    // Ball level with the paddle: hold.
    let mut cm = ComponentManager::new();
    insert_ball(&mut cm, Point::new(640, 360), 1, 1);
    let p = insert_paddle(&mut cm, Point::new(1216, 360), true, 0);
    sys.move_paddle(&mut cm, p, 0, 200, &events, 720);
    assert_eq!(cm.cpaddle_info.get(&p).unwrap().direction, Direction::Stationary);

    // Ball two pixels below: move down.
    let mut cm = ComponentManager::new();
    insert_ball(&mut cm, Point::new(640, 362), 1, 1);
    let p = insert_paddle(&mut cm, Point::new(1216, 360), true, 0);
    sys.move_paddle(&mut cm, p, 0, 200, &events, 720);
    assert_eq!(cm.cpaddle_info.get(&p).unwrap().direction, Direction::Down);
}

#[test]
fn ai_paddle_holds_its_decision_inside_the_delay_window() {
    let events = EventRunner::new();
    let sys = SysPaddleMovement::new();
    let mut cm = ComponentManager::new();
    insert_ball(&mut cm, Point::new(640, 100), 1, 1);
    let p = insert_paddle(&mut cm, Point::new(1216, 360), true, 0);

    sys.move_paddle(&mut cm, p, 0, 200, &events, 720);
    assert_eq!(cm.cpaddle_info.get(&p).unwrap().direction, Direction::Up);
    assert_eq!(cm.cpaddle_info.get(&p).unwrap().ai_delay_timer, 200);

    // Move the ball below the paddle; only 100 ms have passed since
    // the last decision, so the intent must not change.
    let ball = pong::ball::get_ball_id(&cm).unwrap();
    let name = cm.cposition_2d.get(&ball).unwrap().name.clone();
    cm.cposition_2d.insert(
        ball,
        CPosition2D { id: ball, name, pos: Point::new(640, 700) },
    );
    sys.move_paddle(&mut cm, p, 0, 300, &events, 720);
    assert_eq!(cm.cpaddle_info.get(&p).unwrap().direction, Direction::Up);
    assert_eq!(cm.cpaddle_info.get(&p).unwrap().ai_delay_timer, 200);
}

#[test]
fn human_paddle_follows_key_events() {
    let sys = SysPaddleMovement::new();
    let mut cm = ComponentManager::new();
    insert_ball(&mut cm, Point::new(640, 100), 1, 1);
    let p = insert_paddle(&mut cm, Point::new(64, 360), false, 0);

    let mut events = EventRunner::new();
    events.refresh(vec![GameEvent::KeyDown { keycode: KeyCode::W }]);
    sys.move_paddle(&mut cm, p, 100, 50, &events, 720);
    assert_eq!(cm.cpaddle_info.get(&p).unwrap().direction, Direction::Up);
    // 54 pixels up, clamped nowhere.
    assert_eq!(cm.cposition_2d.get(&p).unwrap().pos, Point::new(64, 306));

    events.refresh(vec![GameEvent::KeyUp { keycode: KeyCode::W }]);
    sys.move_paddle(&mut cm, p, 100, 50, &events, 720);
    assert_eq!(cm.cpaddle_info.get(&p).unwrap().direction, Direction::Stationary);
    assert_eq!(cm.cposition_2d.get(&p).unwrap().pos, Point::new(64, 306));

    events.refresh(vec![GameEvent::KeyDown { keycode: KeyCode::S }]);
    sys.move_paddle(&mut cm, p, 100, 50, &events, 720);
    assert_eq!(cm.cpaddle_info.get(&p).unwrap().direction, Direction::Down);
    assert_eq!(cm.cposition_2d.get(&p).unwrap().pos, Point::new(64, 360));
}

#[test]
fn paddle_stops_at_the_playfield_edge() {
    let sys = SysPaddleMovement::new();
    let mut cm = ComponentManager::new();
    let p = insert_paddle(&mut cm, Point::new(64, 60), false, 0);
    let mut events = EventRunner::new();
    events.refresh(vec![GameEvent::KeyDown { keycode: KeyCode::W }]);
    sys.move_paddle(&mut cm, p, 100, 50, &events, 720);
    // 54 pixels up would put the top edge above 0: stopped at 50.
    assert_eq!(cm.cposition_2d.get(&p).unwrap().pos, Point::new(64, 50));
    assert_eq!(cm.cpaddle_info.get(&p).unwrap().direction, Direction::Up);
}

#[test]
fn scoring_awards_player_two_on_the_left_edge() {
    let mut cm = ComponentManager::new();
    let ball = insert_ball(&mut cm, Point::new(-1, 360), -1, 1);
    let mut scoring = SysScoring::new();
    let cmds = scoring.check_score(&mut cm, ball, 1280);
    assert_eq!(scoring.score_p1, 0);
    assert_eq!(scoring.score_p2, 1);
    assert_eq!(cm.cposition_2d.get(&ball).unwrap().pos, Point::new(640, 360));
    let m = cm.cmovement_2d.get(&ball).unwrap();
    assert!(m.x == 1 || m.x == -1);
    assert!(m.y == 1 || m.y == -1);
    assert_eq!(cmds.len(), 2);
    match &cmds[0] {
        DrawCmd::Text { content, pos, font, size, color } => {
            assert_eq!(content, "0");
            assert_eq!(*pos, Point::new(540, 100));
            assert_eq!(font, "arial");
            assert_eq!(*size, 144);
            assert_eq!(*color, Color::white());
        },
        _ => panic!("expected a text command"),
    }
    match &cmds[1] {
        DrawCmd::Text { content, pos, .. } => {
            assert_eq!(content, "1");
            assert_eq!(*pos, Point::new(740, 100));
        },
        _ => panic!("expected a text command"),
    }
}

#[test]
fn scoring_awards_player_one_past_the_right_edge() {
    let mut cm = ComponentManager::new();
    let ball = insert_ball(&mut cm, Point::new(1281, 10), 1, 1);
    let mut scoring = SysScoring::new();
    let cmds = scoring.check_score(&mut cm, ball, 1280);
    assert_eq!(scoring.score_p1, 1);
    assert_eq!(scoring.score_p2, 0);
    assert_eq!(cm.cposition_2d.get(&ball).unwrap().pos, Point::new(640, 360));
    assert_eq!(cmds.len(), 2);
}

#[test]
fn scoring_draws_but_changes_nothing_mid_court() {
    let mut cm = ComponentManager::new();
    let ball = insert_ball(&mut cm, Point::new(640, 360), 1, 1);
    let mut scoring = SysScoring::new();
    let cmds = scoring.check_score(&mut cm, ball, 1280);
    assert_eq!(scoring.score_p1, 0);
    assert_eq!(scoring.score_p2, 0);
    assert_eq!(cm.cposition_2d.get(&ball).unwrap().pos, Point::new(640, 360));
    assert_eq!(cm.cmovement_2d.get(&ball).unwrap().x, 1);
    assert_eq!(cmds.len(), 2);
}

#[test]
fn button_click_inside_fires_exactly_once() {
    let mut cm = ComponentManager::new();
    pong::button::create(
        &mut cm,
        "bvplayer",
        Rect { cx: 640, cy: 360, w: 192, h: 96 },
        Color::white(),
        "Play",
        Some(ButtonAction::NavigateTo(GameStates::Pong)),
    );
    let mut events = EventRunner::new();
    events.refresh(vec![GameEvent::MouseButtonDown { mouse_btn: MouseBtn::Left, x: 640, y: 360 }]);
    let actions = SysButtonInput::new().handle_input(&cm, 0, &events);
    assert_eq!(actions, vec![ButtonAction::NavigateTo(GameStates::Pong)]);
}

#[test]
fn button_click_outside_fires_nothing() {
    let mut cm = ComponentManager::new();
    pong::button::create(
        &mut cm,
        "bvplayer",
        Rect { cx: 640, cy: 360, w: 192, h: 96 },
        Color::white(),
        "Play",
        Some(ButtonAction::NavigateTo(GameStates::Pong)),
    );
    let mut events = EventRunner::new();
    events.refresh(vec![
        GameEvent::MouseButtonDown { mouse_btn: MouseBtn::Left, x: 10, y: 10 },
        GameEvent::MouseButtonDown { mouse_btn: MouseBtn::Right, x: 640, y: 360 },
    ]);
    let actions = SysButtonInput::new().handle_input(&cm, 0, &events);
    assert!(actions.is_empty());
}

#[test]
fn button_without_callback_tolerates_a_click() {
    let mut cm = ComponentManager::new();
    let id = cm.id_allocator.get_number();
    cm.cposition_2d.insert(
        id,
        CPosition2D { id, name: String::from("b"), pos: Point::new(100, 100) },
    );
    cm.ccollision_2d.insert(id, CCollision2D { id, name: String::from("b"), size: (40, 40) });
    cm.cbutton_info.insert(
        id,
        CButtonInfo { id, name: String::from("b"), text: String::from("b"), callback: None },
    );
    let mut events = EventRunner::new();
    events.refresh(vec![GameEvent::MouseButtonDown { mouse_btn: MouseBtn::Left, x: 100, y: 100 }]);
    let actions = SysButtonInput::new().handle_input(&cm, id, &events);
    assert!(actions.is_empty());
}

#[test]
fn two_qualifying_clicks_fire_twice() {
    let mut cm = ComponentManager::new();
    pong::button::create(
        &mut cm,
        "bexit",
        Rect { cx: 640, cy: 472, w: 192, h: 96 },
        Color::white(),
        "Exit",
        Some(ButtonAction::RequestExit),
    );
    let mut events = EventRunner::new();
    events.refresh(vec![
        GameEvent::MouseButtonDown { mouse_btn: MouseBtn::Left, x: 640, y: 472 },
        GameEvent::MouseButtonDown { mouse_btn: MouseBtn::Left, x: 600, y: 450 },
    ]);
    let actions = SysButtonInput::new().handle_input(&cm, 0, &events);
    assert_eq!(actions, vec![ButtonAction::RequestExit, ButtonAction::RequestExit]);
}

#[test]
fn score_digits_render_exactly() {
    assert_eq!(u8_to_string(0), "0");
    assert_eq!(u8_to_string(7), "7");
    assert_eq!(u8_to_string(42), "42");
    assert_eq!(u8_to_string(100), "100");
    assert_eq!(u8_to_string(255), "255");
}
