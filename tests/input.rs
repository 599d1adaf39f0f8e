use tetrs::app::{App, Area};
use tetrs::handler::{
    apply_command, button_at, button_command, handle_key_events, handle_mouse_events, key_command, Command, KeyInput,
    KeyPress, MouseClick,
};
use tetrs::tetromino::tetromino_shape;

fn ordered_app() -> App {
    let mut app = App::starting_with(0);
    app.push_bag(&vec![1, 2, 3, 4, 5, 6]);
    app
}

fn key(c: char) -> KeyPress {
    KeyPress { code: KeyInput::Char(c), control: false }
}

#[test]
fn keys_map_to_commands() {
    assert_eq!(key_command(key('a'), false), Some(Command::MoveLeft));
    assert_eq!(key_command(key('d'), false), Some(Command::MoveRight));
    assert_eq!(key_command(key(' '), false), Some(Command::HardDrop));
    assert_eq!(key_command(key('w'), false), Some(Command::Hold));
    assert_eq!(key_command(key('s'), false), Some(Command::SoftDrop));
    assert_eq!(key_command(key('q'), false), Some(Command::RotateLeft));
    assert_eq!(key_command(key('e'), false), Some(Command::RotateRight));
    assert_eq!(key_command(key('c'), false), None);
    assert_eq!(key_command(KeyPress { code: KeyInput::Char('C'), control: true }, false), Some(Command::Quit));
    assert_eq!(key_command(KeyPress { code: KeyInput::Esc, control: false }, true), Some(Command::Quit));
    assert_eq!(key_command(key('a'), true), None);
    assert_eq!(key_command(key('p'), true), Some(Command::TogglePause));
    assert_eq!(key_command(KeyPress { code: KeyInput::Other, control: false }, false), None);
}

#[test]
fn moves_are_refused_at_the_wall() {
    let mut app = ordered_app();
    handle_key_events(key('d'), &mut app);
    assert_eq!(app.x, 8);
    for _ in 0..10 {
        handle_key_events(key('d'), &mut app);
    }
    // the I piece spans mask columns 0 to 3, so its anchor stops at 10
    assert_eq!(app.x, 10);
    for _ in 0..10 {
        handle_key_events(key('a'), &mut app);
    }
    assert_eq!(app.x, 4);
}

#[test]
fn pause_blocks_everything_but_pause_and_quit() {
    let mut app = ordered_app();
    handle_key_events(key('p'), &mut app);
    assert!(app.paused);
    handle_key_events(key('d'), &mut app);
    assert_eq!(app.x, 7);
    handle_key_events(key('p'), &mut app);
    assert!(!app.paused);
    handle_key_events(KeyPress { code: KeyInput::Esc, control: false }, &mut app);
    assert!(!app.running);
}

#[test]
fn soft_drop_and_probe_keys() {
    let mut app = ordered_app();
    app.tick_count_target = 9;
    handle_key_events(key('s'), &mut app);
    assert_eq!(app.tick_count_target, 0);
    handle_key_events(KeyPress { code: KeyInput::Right, control: false }, &mut app);
    assert!(app.check_for_game_over());
    handle_key_events(KeyPress { code: KeyInput::Right, control: false }, &mut app);
    assert!(!app.check_for_game_over());
}

#[test]
fn random_piece_is_a_catalog_shape() {
    for _ in 0..10 {
        let mut app = ordered_app();
        handle_key_events(KeyPress { code: KeyInput::Left, control: false }, &mut app);
        assert!((0..7).any(|k| app.current_tetromino == tetromino_shape(k)));
        assert_eq!((app.x, app.y), (7, 4));
    }
}

#[test]
fn commands_needing_the_queue_wait_for_it() {
    let mut app = ordered_app();
    app.tetromino_queue.clear();
    let before = app.current_tetromino;
    apply_command(&mut app, Command::HardDrop);
    apply_command(&mut app, Command::Commit);
    apply_command(&mut app, Command::Hold);
    assert_eq!(app.current_tetromino, before);
    assert!(app.playfield.iter().flatten().all(|c| !c.landed));
}

#[test]
fn buttons_are_hit_tested_in_order() {
    let buttons = vec![
        Area { x: 0, y: 0, width: 4, height: 2 },
        Area { x: 4, y: 0, width: 4, height: 2 },
        Area { x: 2, y: 0, width: 4, height: 2 },
    ];
    assert_eq!(button_at(&buttons, 0, 0), Some(0));
    assert_eq!(button_at(&buttons, 5, 1), Some(1));
    assert_eq!(button_at(&buttons, 8, 0), None);
    assert_eq!(button_at(&buttons, 1, 2), None);
    assert_eq!(button_command(3), Some(Command::MoveRight));
    assert_eq!(button_command(8), None);
}

#[test]
fn clicking_a_button_runs_its_command() {
    let mut app = ordered_app();
    app.buttons = (0..8).map(|i| Area { x: 10 * i, y: 30, width: 10, height: 3 }).collect();
    handle_mouse_events(MouseClick { column: 35, row: 31, left_down: true }, &mut app);
    assert_eq!(app.x, 8);
    handle_mouse_events(MouseClick { column: 35, row: 31, left_down: false }, &mut app);
    assert_eq!(app.x, 8);
    handle_mouse_events(MouseClick { column: 65, row: 30, left_down: true }, &mut app);
    assert!(app.paused);
    handle_mouse_events(MouseClick { column: 500, row: 30, left_down: true }, &mut app);
    assert!(app.paused);
}
