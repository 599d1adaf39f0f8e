use tetrs::app::{App, PlayFieldCell, HEIGHT, PLAY_LEFT, PLAY_RIGHT, WIDTH};
use tetrs::tetromino::{blank_tetromino, tetromino_shape, Tetromino};

fn ordered_app() -> App {
    let mut app = App::starting_with(0);
    app.push_bag(&vec![1, 2, 3, 4, 5, 6]);
    app
}

/// A piece whose every rotation is the single top-left mask cell.
fn single_cell() -> Tetromino {
    let mut rotations = [[[false; 4]; 4]; 4];
    for r in 0..4 {
        rotations[r][0][0] = true;
    }
    Tetromino { rotations }
}

fn fill_row(app: &mut App, y: usize, from: usize, to: usize) {
    for x in from..=to {
        app.playfield[y][x].landed = true;
    }
}

fn falling_count(app: &App) -> usize {
    app.playfield.iter().map(|row| row.iter().filter(|c| c.falling).count()).sum()
}

#[test]
fn test_default_app() {
    let app = App::default();
    assert!(app.running);
    assert_eq!(app.playfield.len(), 24);
    assert_eq!(app.playfield[0].len(), 14);
}

#[test]
fn test_tick() {
    let mut app = App::default();
    app.tick();
}

#[test]
fn test_quit() {
    let mut app = App::default();
    app.quit();
    assert!(!app.running);
}

#[test]
fn test_move_tetromino() {
    let mut app = App::default();
    let initial_x = app.x;
    let initial_y = app.y;
    let tetromino = tetromino_shape(4);
    app.move_tetromino(1, 1, tetromino);
    assert_eq!(app.x, initial_x + 1);
    assert_eq!(app.y, initial_y + 1);
}

#[test]
fn test_swap_tetromino() {
    let mut app = App::default();
    app.populate_tetromino_queue();
    let current_tetromino = app.current_tetromino;
    let queue_head = app.tetromino_queue[0];
    app.swap_tetromino();
    assert_eq!(app.current_tetromino, queue_head);
    assert_eq!(app.swap_tetromino, current_tetromino);
}

#[test]
fn test_playfield_string() {
    let app = App::default();
    let _playfield_string = app.playfield_string();
}

#[test]
fn new_game_layout() {
    let app = ordered_app();
    assert_eq!(app.playfield.len(), HEIGHT);
    assert!(app.playfield.iter().all(|row| row.len() == WIDTH));
    assert!(app.playfield.iter().flatten().all(|c| *c == PlayFieldCell::default()));
    assert_eq!(app.current_tetromino, tetromino_shape(0));
    assert_eq!(app.tetromino_queue.len(), 6);
    assert_eq!(app.tetromino_queue[0], tetromino_shape(1));
    assert_eq!(app.tetromino_queue[5], tetromino_shape(6));
    assert_eq!(app.swap_tetromino, blank_tetromino());
    assert_eq!((app.x, app.y, app.start_x, app.start_y), (7, 4, 7, 4));
    assert_eq!((app.level, app.score, app.default_tick_count_target), (1, 0, 15));
}

#[test]
fn every_rotation_of_every_shape_is_occupied() {
    for kind in 0..7 {
        let t = tetromino_shape(kind);
        assert!(!t.is_empty());
        for r in 0..4 {
            assert!(t.rotations[r].iter().flatten().any(|c| *c), "kind {} rotation {}", kind, r);
        }
    }
    assert!(blank_tetromino().is_empty());
}

#[test]
fn new_game_starts_at_the_spawn_anchor() {
    for _ in 0..10 {
        let app = App::new();
        assert!((0..7).any(|k| app.current_tetromino == tetromino_shape(k)));
        assert!(app.tetromino_queue.is_empty());
        assert_eq!(app.swap_tetromino, blank_tetromino());
        assert_eq!((app.x, app.y, app.start_x, app.start_y, app.current_rotation), (7, 4, 7, 4, 0));
        assert_eq!((app.tick_count, app.tick_count_target, app.default_tick_count_target), (0, 0, 15));
        assert!(app.running && !app.paused && !app.grace_period && app.buttons.is_empty());
        assert_eq!((app.score, app.high_score, app.level), (0, 0, 1));
    }
}

#[test]
fn new_game_move_and_game_over_probe() {
    let mut app = App::default();
    assert!(!app.check_for_game_over());
    app.move_tetromino(1, 1, tetromino_shape(4));
    assert_eq!((app.x, app.y), (8, 5));
    let falling: Vec<(usize, usize)> = (0..HEIGHT)
        .flat_map(|y| (0..WIDTH).map(move |x| (y, x)))
        .filter(|&(y, x)| app.playfield[y][x].falling)
        .collect();
    assert_eq!(falling, vec![(5, 9), (5, 10), (6, 8), (6, 9)]);
    app.playfield[5][8].landed = true;
    assert!(app.check_for_game_over());
}

#[test]
fn bags_are_shuffled() {
    let order: Vec<Tetromino> = (0..7).map(tetromino_shape).collect();
    let mut saw_reordered = false;
    for _ in 0..20 {
        let mut app = App::starting_with(0);
        app.populate_tetromino_queue();
        if app.tetromino_queue != order {
            saw_reordered = true;
        }
    }
    assert!(saw_reordered);
}

#[test]
fn populate_adds_one_of_each_kind() {
    let mut app = ordered_app();
    app.populate_tetromino_queue();
    assert_eq!(app.tetromino_queue.len(), 13);
    assert_eq!(app.tetromino_queue[..6], ordered_app().tetromino_queue[..]);
    for kind in 0..7 {
        let shape = tetromino_shape(kind);
        assert_eq!(app.tetromino_queue[6..].iter().filter(|p| **p == shape).count(), 1);
    }
}

#[test]
fn line_clear_removes_exactly_full_rows() {
    let mut app = ordered_app();
    fill_row(&mut app, 23, PLAY_LEFT, PLAY_RIGHT);
    fill_row(&mut app, 21, PLAY_LEFT, PLAY_RIGHT);
    fill_row(&mut app, 22, PLAY_LEFT, PLAY_RIGHT - 1);
    app.playfield[20][5].landed = true;
    let lines = app.check_for_line_clear();
    assert_eq!(lines, 2);
    assert_eq!(app.playfield.len(), HEIGHT);
    assert!(app.playfield[0].iter().chain(app.playfield[1].iter()).all(|c| !c.landed));
    // the partial row 22 and the single cell of row 20 keep their order, at the bottom
    assert!(app.playfield[23][PLAY_LEFT].landed && !app.playfield[23][PLAY_RIGHT].landed);
    assert!(app.playfield[22][5].landed);
    assert_eq!(app.playfield[22].iter().filter(|c| c.landed).count(), 1);
    assert_eq!(app.check_for_line_clear(), 0);
}

#[test]
fn collision_at_the_playable_edges() {
    let mut app = ordered_app();
    app.current_tetromino = tetromino_shape(3); // O: mask columns 1 and 2
    app.x = PLAY_RIGHT - 2;
    app.y = 10;
    assert!(!app.has_landed_cells_at_offset(0, 0));
    assert!(app.has_landed_cells_at_offset(1, 0));
    app.x = PLAY_LEFT - 1;
    assert!(!app.has_landed_cells_at_offset(0, 0));
    assert!(app.has_landed_cells_at_offset(-1, 0));
    app.y = HEIGHT - 2;
    assert!(!app.has_landed_cells_at_offset(0, 0));
    assert!(app.has_landed_cells_at_offset(0, 1));
    app.playfield[HEIGHT - 1][PLAY_LEFT + 1].landed = true;
    assert!(app.has_landed_cells_at_offset(0, 0));
}

#[test]
fn hard_drop_lands_piece_and_leaves_only_the_next_falling() {
    let mut app = ordered_app();
    app.current_tetromino = tetromino_shape(3);
    let next = app.tetromino_queue[0];
    app.drop_tetromino();
    for (y, x) in [(22, 8), (22, 9), (23, 8), (23, 9)] {
        assert!(app.playfield[y][x].landed, "cell {} {}", y, x);
    }
    assert_eq!(app.playfield.iter().flatten().filter(|c| c.landed).count(), 4);
    assert_eq!(app.current_tetromino, next);
    assert_eq!(app.tetromino_queue.len(), 5);
    // only the new piece (J, rotation 0) falls, at the spawn anchor
    assert_eq!(falling_count(&app), 4);
    assert!(app.playfield[4][7].falling && app.playfield[5][7].falling);
    assert!(app.playfield[5][8].falling && app.playfield[5][9].falling);
}

#[test]
fn hard_drop_stops_on_landed_cells() {
    let mut app = ordered_app();
    app.current_tetromino = tetromino_shape(3);
    app.playfield[15][9].landed = true;
    app.drop_tetromino();
    assert!(app.playfield[13][8].landed && app.playfield[14][9].landed);
    assert!(!app.playfield[23][8].landed);
}

#[test]
fn score_for_cleared_rows_is_square_times_hundred_times_level() {
    let mut app = ordered_app();
    app.level = 3;
    app.score = 7;
    fill_row(&mut app, 23, PLAY_LEFT, PLAY_RIGHT);
    fill_row(&mut app, 22, PLAY_LEFT, PLAY_RIGHT);
    app.tick_count_target = 0;
    app.tick();
    assert_eq!(app.score, 7 + 4 * 100 * 3);
    assert_eq!(app.tick_count, 0);
    assert_eq!(app.level, 3);
}

#[test]
fn filling_the_gap_clears_one_row() {
    let mut app = ordered_app();
    fill_row(&mut app, HEIGHT - 1, PLAY_LEFT, PLAY_RIGHT - 1);
    app.current_tetromino = single_cell();
    app.x = PLAY_RIGHT;
    app.drop_tetromino();
    assert!(app.playfield[HEIGHT - 1][PLAY_RIGHT].landed);
    let level = app.level;
    app.tick_count_target = 0;
    app.tick();
    assert_eq!(app.score, 100 * level);
    assert!(app.playfield[HEIGHT - 1].iter().all(|c| !c.landed));
}

#[test]
fn tick_moves_down_then_grace_then_commit() {
    let mut app = ordered_app();
    app.tick();
    assert_eq!(app.y, 5);
    assert_eq!(app.tetromino_queue.len(), 13);
    app.y = HEIGHT - 2; // I piece lies in mask row 1
    app.tick_count_target = 0;
    app.tick();
    assert!(app.grace_period);
    assert_eq!(app.y, HEIGHT - 2);
    app.tick_count_target = 0;
    app.tick();
    assert!(!app.grace_period);
    assert!(app.playfield[HEIGHT - 1][7..11].iter().all(|c| c.landed));
    assert_eq!(app.current_tetromino, tetromino_shape(1));
    assert_eq!(app.y, 5);
}

#[test]
fn tick_waits_for_its_target_and_pause_freezes() {
    let mut app = ordered_app();
    app.tick_count_target = 3;
    app.tick();
    assert_eq!(app.tick_count, 1);
    assert_eq!(app.y, 4);
    assert_eq!(app.tick_count_target, 15);
    app.paused = true;
    app.tick();
    assert_eq!(app.tick_count, 1);
}

#[test]
fn next_level_above_threshold() {
    let mut app = ordered_app();
    app.score = 500;
    app.check_for_next_level();
    assert_eq!((app.level, app.default_tick_count_target), (1, 15));
    app.score = 501;
    app.check_for_next_level();
    assert_eq!((app.level, app.default_tick_count_target), (2, 14));
    app.check_for_next_level();
    assert_eq!(app.level, 2);
    app.default_tick_count_target = 0;
    app.score = 4001;
    app.check_for_next_level();
    assert_eq!((app.level, app.default_tick_count_target), (3, 0));
}

#[test]
fn swap_with_empty_hold_takes_the_queue_head() {
    let mut app = ordered_app();
    let active = app.current_tetromino;
    let head = app.tetromino_queue[0];
    let len = app.tetromino_queue.len();
    app.swap_tetromino();
    assert_eq!(app.swap_tetromino, active);
    assert_eq!(app.current_tetromino, head);
    assert_eq!(app.tetromino_queue.len(), len - 1);
    assert_eq!(falling_count(&app), 4);
    app.swap_tetromino();
    assert_eq!(app.current_tetromino, active);
    assert_eq!(app.swap_tetromino, head);
    assert_eq!(app.tetromino_queue.len(), len - 1);
}

#[test]
fn game_over_when_spawn_interior_is_landed() {
    let mut app = ordered_app();
    assert!(!app.check_for_game_over());
    app.playfield[app.start_y + 1][app.start_x + 1].landed = true;
    assert!(app.check_for_game_over());
}

#[test]
fn rotation_turns_and_is_refused_when_blocked() {
    let mut app = ordered_app();
    app.rotate_tetromino(true);
    assert_eq!(app.current_rotation, 1);
    assert!((4..8).all(|y| app.playfield[y][9].falling));
    app.rotate_tetromino(false);
    app.rotate_tetromino(false);
    assert_eq!(app.current_rotation, 3);
    app.playfield[5][9].landed = true;
    app.current_rotation = 0;
    app.rotate_tetromino(true);
    assert_eq!(app.current_rotation, 0);
}

#[test]
fn playfield_text_shows_visible_cells() {
    let mut app = ordered_app();
    app.playfield[4][4].landed = true;
    app.playfield[5][5].falling = true;
    let text = app.playfield_string();
    let lines: Vec<&str> = text.lines().collect();
    assert_eq!(lines.len(), HEIGHT - 4);
    assert_eq!(lines[0], format!("██{}", "  ".repeat(9)));
    assert_eq!(lines[1], format!("  ▒▒{}", "  ".repeat(8)));
    assert_eq!(lines[2], "  ".repeat(10));
}

#[test]
fn piece_previews() {
    let app = ordered_app();
    assert_eq!(app.tetromino_string(tetromino_shape(0)), "  ██\n  ██\n  ██\n  ██\n");
    assert_eq!(app.tetromino_string(tetromino_shape(3)), "████\n████\n");
    assert_eq!(app.tetromino_string(blank_tetromino()), "");
    let queue = app.tetromino_queue_string();
    assert!(queue.starts_with("████\n██  \n██  \n\n"));
    assert_eq!(queue.matches("\n\n").count(), 6);
}
