use vstd::prelude::*;

use crate::app::{
    App, Area, PlayFieldCell, collides, with_falling, without_falling, move_outcome, rotate_outcome, reset_outcome,
    drop_outcome, swap_outcome, lemma_unblocked_placed,
};
use crate::random::random_below;
use crate::tetromino::{Tetromino, shape_of, tetromino_shape, lemma_shapes_solid, KIND_COUNT};

verus! {

/// The key of a key press, as far as the game tells keys apart.
#[derive(Debug, Clone, Copy, PartialEq, Eq, Structural)]
pub enum KeyInput {
    Esc,
    Char(char),
    Left,
    Right,
    Up,
    Other,
}

/// A key press: the key, and whether Control was the only modifier held.
#[derive(Debug, Clone, Copy, PartialEq, Eq, Structural)]
pub struct KeyPress {
    pub code: KeyInput,
    pub control: bool,
}

/// A mouse event at a terminal cell; `left_down` tells a press of the left
/// button from every other kind of event.
#[derive(Debug, Clone, Copy, PartialEq, Eq, Structural)]
pub struct MouseClick {
    pub column: u16,
    pub row: u16,
    pub left_down: bool,
}

/// What an input asks of the game.
#[derive(Debug, Clone, Copy, PartialEq, Eq, Structural)]
pub enum Command {
    Quit,
    TogglePause,
    /// Flips the landed flag of the cell that signals game over.
    ToggleProbe,
    /// Replaces the active piece by one of a random kind, where it stands.
    RandomPiece,
    /// Commits the active piece where it is.
    Commit,
    HardDrop,
    Hold,
    MoveLeft,
    MoveRight,
    SoftDrop,
    RotateLeft,
    RotateRight,
}

/// The command of a key press; while paused only the pause key and the
/// quit keys act.
pub open spec fn key_command_spec(key: KeyPress, paused: bool) -> Option<Command> {
    let quit = key.code == KeyInput::Esc || ((key.code == KeyInput::Char('c') || key.code == KeyInput::Char('C'))
        && key.control);
    if paused && key.code != KeyInput::Char('p') {
        if quit { Some(Command::Quit) } else { None }
    } else if key.code == KeyInput::Esc {
        Some(Command::Quit)
    } else if key.code == KeyInput::Char('c') || key.code == KeyInput::Char('C') {
        if key.control { Some(Command::Quit) } else { None }
    } else if key.code == KeyInput::Char('p') {
        Some(Command::TogglePause)
    } else if key.code == KeyInput::Right {
        Some(Command::ToggleProbe)
    } else if key.code == KeyInput::Left {
        Some(Command::RandomPiece)
    } else if key.code == KeyInput::Up {
        Some(Command::Commit)
    } else if key.code == KeyInput::Char(' ') {
        Some(Command::HardDrop)
    } else if key.code == KeyInput::Char('w') {
        Some(Command::Hold)
    } else if key.code == KeyInput::Char('a') {
        Some(Command::MoveLeft)
    } else if key.code == KeyInput::Char('s') {
        Some(Command::SoftDrop)
    } else if key.code == KeyInput::Char('d') {
        Some(Command::MoveRight)
    } else if key.code == KeyInput::Char('q') {
        Some(Command::RotateLeft)
    } else if key.code == KeyInput::Char('e') {
        Some(Command::RotateRight)
    } else {
        None
    }
}

/// The command of a key press (see `key_command_spec`).
pub fn key_command(key: KeyPress, paused: bool) -> (c: Option<Command>)
    ensures
        c == key_command_spec(key, paused),
{
    let quit = key.code == KeyInput::Esc || ((key.code == KeyInput::Char('c') || key.code == KeyInput::Char('C'))
        && key.control);
    if paused && key.code != KeyInput::Char('p') {
        if quit { Some(Command::Quit) } else { None }
    } else {
        match key.code {
            KeyInput::Esc => Some(Command::Quit),
            KeyInput::Char('c') | KeyInput::Char('C') => if key.control { Some(Command::Quit) } else { None },
            KeyInput::Char('p') => Some(Command::TogglePause),
            KeyInput::Right => Some(Command::ToggleProbe),
            KeyInput::Left => Some(Command::RandomPiece),
            KeyInput::Up => Some(Command::Commit),
            KeyInput::Char(' ') => Some(Command::HardDrop),
            KeyInput::Char('w') => Some(Command::Hold),
            KeyInput::Char('a') => Some(Command::MoveLeft),
            KeyInput::Char('s') => Some(Command::SoftDrop),
            KeyInput::Char('d') => Some(Command::MoveRight),
            KeyInput::Char('q') => Some(Command::RotateLeft),
            KeyInput::Char('e') => Some(Command::RotateRight),
            _ => None,
        }
    }
}

/// The command of each control button, in the order they are drawn.
pub open spec fn button_command_spec(index: int) -> Option<Command> {
    if index == 0 {
        Some(Command::RotateLeft)
    } else if index == 1 {
        Some(Command::MoveLeft)
    } else if index == 2 {
        Some(Command::RotateRight)
    } else if index == 3 {
        Some(Command::MoveRight)
    } else if index == 4 {
        Some(Command::SoftDrop)
    } else if index == 5 {
        Some(Command::HardDrop)
    } else if index == 6 {
        Some(Command::TogglePause)
    } else if index == 7 {
        Some(Command::Hold)
    } else {
        None
    }
}

/// The command of control button `index` (see `button_command_spec`).
pub fn button_command(index: usize) -> (c: Option<Command>)
    ensures
        c == button_command_spec(index as int),
{
    match index {
        0 => Some(Command::RotateLeft),
        1 => Some(Command::MoveLeft),
        2 => Some(Command::RotateRight),
        3 => Some(Command::MoveRight),
        4 => Some(Command::SoftDrop),
        5 => Some(Command::HardDrop),
        6 => Some(Command::TogglePause),
        7 => Some(Command::Hold),
        _ => None,
    }
}

/// Whether terminal cell (`column`, `row`) lies inside `area`.
pub open spec fn area_contains(area: Area, column: int, row: int) -> bool {
    area.x <= column < area.x + area.width && area.y <= row < area.y + area.height
}

/// The index of the first area that holds terminal cell (`column`, `row`).
pub fn button_at(buttons: &Vec<Area>, column: u16, row: u16) -> (hit: Option<usize>)
    ensures
        match hit {
            Some(i) => i < buttons@.len() && area_contains(buttons@[i as int], column as int, row as int)
                && forall|j: int| 0 <= j < i ==> !area_contains(#[trigger] buttons@[j], column as int, row as int),
            None => forall|j: int| 0 <= j < buttons@.len() ==> !area_contains(#[trigger] buttons@[j], column as int, row as int),
        },
{
    let mut i: usize = 0;
    while i < buttons.len()
        invariant
            i <= buttons@.len(),
            forall|j: int| 0 <= j < i ==> !area_contains(#[trigger] buttons@[j], column as int, row as int),
        decreases buttons@.len() - i,
    {
        let b = buttons[i];
        let c = column as u32;
        let r = row as u32;
        if c >= b.x as u32 && c < b.x as u32 + b.width as u32 && r >= b.y as u32 && r < b.y as u32 + b.height as u32 {
            return Some(i);
        }
        i += 1;
    }
    None
}

/// How putting `t` in place of the active piece, in the same rotation and
/// where it stands, takes `a` to `b`; nothing changes where `t` would be
/// blocked there.
pub open spec fn replace_outcome(a: App, b: App, t: Tetromino) -> bool {
    let r = a.current_rotation as int;
    if collides(a.grid(), t, r, a.x as int, a.y as int, 0, 0) {
        b == a
    } else {
        &&& b.current_tetromino == t
        &&& b.grid() == with_falling(without_falling(a.grid()), t, r, a.x as int, a.y as int)
        &&& (b == App { playfield: b.playfield, current_tetromino: b.current_tetromino, ..a })
    }
}

/// How carrying out `cmd` takes `a` to `b`. A move goes only where the piece
/// is not blocked, and a command that needs a piece from the queue does
/// nothing while the queue is empty.
pub open spec fn command_outcome(a: App, b: App, cmd: Command) -> bool {
    let sx = a.start_x as int;
    let sy = a.start_y as int;
    match cmd {
        Command::Quit => b == App { running: false, ..a },
        Command::TogglePause => b == App { paused: !a.paused, ..a },
        Command::ToggleProbe => {
            let c = a.grid()[sy + 1][sx + 1];
            &&& b.grid() == a.grid().update(
                sy + 1,
                a.grid()[sy + 1].update(sx + 1, PlayFieldCell { falling: c.falling, landed: !c.landed }),
            )
            &&& (b == App { playfield: b.playfield, ..a })
        },
        Command::RandomPiece => exists|k: int| 0 <= k < KIND_COUNT && #[trigger] replace_outcome(a, b, shape_of(k)),
        Command::Commit => if a.tetromino_queue@.len() > 0 { reset_outcome(a, b) } else { b == a },
        Command::HardDrop => if a.tetromino_queue@.len() > 0 { drop_outcome(a, b) } else { b == a },
        Command::Hold => if a.swap_tetromino.is_blank() && a.tetromino_queue@.len() == 0 {
            b == a
        } else {
            swap_outcome(a, b)
        },
        Command::MoveLeft => if a.piece_blocked(-1, 0) {
            b == a
        } else {
            move_outcome(a, b, -1, 0, a.current_tetromino)
        },
        Command::MoveRight => if a.piece_blocked(1, 0) {
            b == a
        } else {
            move_outcome(a, b, 1, 0, a.current_tetromino)
        },
        Command::SoftDrop => b == App { tick_count_target: 0, ..a },
        Command::RotateLeft => rotate_outcome(a, b, false),
        Command::RotateRight => rotate_outcome(a, b, true),
    }
}

/// Carries out `cmd` on the game (see `command_outcome`).
pub fn apply_command(app: &mut App, cmd: Command)
    requires
        old(app).wf(),
    ensures
        final(app).wf(),
        command_outcome(*old(app), *final(app), cmd),
{
    match cmd {
        Command::Quit => app.quit(),
        Command::TogglePause => {
            app.paused = !app.paused;
        },
        Command::ToggleProbe => {
            let i = app.start_y + 1;
            let j = app.start_x + 1;
            proof {
                assert(app.grid()[i as int] == app.playfield@[i as int]@);
            }
            let c = app.playfield[i][j];
            app.playfield[i].set(j, PlayFieldCell { falling: c.falling, landed: !c.landed });
            proof {
                assert(app.grid() =~~= old(app).grid().update(
                    i as int,
                    old(app).grid()[i as int].update(j as int, PlayFieldCell { falling: c.falling, landed: !c.landed }),
                ));
                assert forall|k: int| 0 <= k < app.grid().len() implies (#[trigger] app.grid()[k]).len() == old(app).grid()[k].len() by {
                }
            }
        },
        Command::RandomPiece => {
            let k = random_below(KIND_COUNT);
            let t = tetromino_shape(k);
            let r = app.current_rotation;
            let blocked = app.piece_blocked_by(&t, r);
            if !blocked {
                proof {
                    lemma_shapes_solid(k as int);
                    lemma_unblocked_placed(app.grid(), t, r as int, app.x as int, app.y as int, 0, 0);
                }
                app.clear_falling();
                let x = app.x;
                let y = app.y;
                app.current_tetromino = app.spawn_tetromino(x, y, t);
            }
            assert(replace_outcome(*old(app), *app, shape_of(k as int)));
        },
        Command::Commit => {
            if app.tetromino_queue.len() > 0 {
                app.reset_tetromino();
            }
        },
        Command::HardDrop => {
            if app.tetromino_queue.len() > 0 {
                app.drop_tetromino();
            }
        },
        Command::Hold => {
            if !(app.swap_tetromino.is_empty() && app.tetromino_queue.len() == 0) {
                app.swap_tetromino();
            }
        },
        Command::MoveLeft => {
            if !app.has_landed_cells_at_offset(-1, 0) {
                proof {
                    lemma_unblocked_placed(app.grid(), app.current_tetromino, app.current_rotation as int, app.x as int, app.y as int, -1, 0);
                }
                let t = app.current_tetromino;
                app.move_tetromino(-1, 0, t);
            }
        },
        Command::MoveRight => {
            if !app.has_landed_cells_at_offset(1, 0) {
                proof {
                    lemma_unblocked_placed(app.grid(), app.current_tetromino, app.current_rotation as int, app.x as int, app.y as int, 1, 0);
                }
                let t = app.current_tetromino;
                app.move_tetromino(1, 0, t);
            }
        },
        Command::SoftDrop => {
            app.tick_count_target = 0;
        },
        Command::RotateLeft => app.rotate_tetromino(false),
        Command::RotateRight => app.rotate_tetromino(true),
    }
}

/// Handles a key press (see `key_command_spec` and `command_outcome`).
pub fn handle_key_events(key_event: KeyPress, app: &mut App)
    requires
        old(app).wf(),
    ensures
        final(app).wf(),
        match key_command_spec(key_event, old(app).paused) {
            Some(cmd) => command_outcome(*old(app), *final(app), cmd),
            None => *final(app) == *old(app),
        },
{
    if let Some(cmd) = key_command(key_event, app.paused) {
        apply_command(app, cmd);
    }
}

/// Handles a mouse event: a left-button press on a control button carries
/// out that button's command; anything else changes nothing.
pub fn handle_mouse_events(mouse_event: MouseClick, app: &mut App)
    requires
        old(app).wf(),
    ensures
        final(app).wf(),
        ({
            let hit = choose|i: int|
                0 <= i < old(app).buttons@.len() && area_contains(old(app).buttons@[i], mouse_event.column as int, mouse_event.row as int)
                    && forall|j: int| 0 <= j < i ==> !area_contains(#[trigger] old(app).buttons@[j], mouse_event.column as int, mouse_event.row as int);
            let any = exists|i: int|
                0 <= i < old(app).buttons@.len() && #[trigger] area_contains(old(app).buttons@[i], mouse_event.column as int, mouse_event.row as int);
            if mouse_event.left_down && any {
                match button_command_spec(hit) {
                    Some(cmd) => command_outcome(*old(app), *final(app), cmd),
                    None => *final(app) == *old(app),
                }
            } else {
                *final(app) == *old(app)
            }
        }),
{
    if !mouse_event.left_down {
        return;
    }
    let hit = button_at(&app.buttons, mouse_event.column, mouse_event.row);
    match hit {
        Some(i) => {
            proof {
                let c = mouse_event.column as int;
                let r = mouse_event.row as int;
                let h = choose|h: int|
                    0 <= h < app.buttons@.len() && area_contains(app.buttons@[h], c, r)
                        && forall|j: int| 0 <= j < h ==> !area_contains(#[trigger] app.buttons@[j], c, r);
                assert(area_contains(app.buttons@[i as int], c, r));
                if h < i {
                    assert(!area_contains(app.buttons@[h], c, r));
                }
                if h > i {
                    assert(!area_contains(app.buttons@[i as int], c, r));
                }
                assert(h == i);
            }
            if let Some(cmd) = button_command(i) {
                apply_command(app, cmd);
            }
        },
        None => {
            proof {
                assert(!exists|i: int|
                    0 <= i < app.buttons@.len() && #[trigger] area_contains(app.buttons@[i], mouse_event.column as int, mouse_event.row as int));
            }
        },
    }
}

} // verus!
