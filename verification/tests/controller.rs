use frame_loop::controller::{
    Action, Config, Event, FrameInput, GameLoop, LoopState, Phase, TextCursor,
    MAX_CHARS_PER_LINE, TOTAL_LINES,
};
use frame_loop::motion::{Axis, Position, Velocity};
use frame_loop::sprite::SpriteAttributes;

fn config() -> Config {
    Config {
        display_width: 240,
        display_height: 160,
        sprite_width: 16,
        sprite_height: 16,
        sprite_frame: 0,
        start: Position { x: 0, y: 100 },
        grid_width: 30,
        grid_height: 20,
        fill_pattern: 0,
        tile_pool: 2,
        max_chars_per_line: MAX_CHARS_PER_LINE,
        total_lines: TOTAL_LINES,
    }
}

fn script(entries: &[&str]) -> Vec<String> {
    entries.iter().map(|entry| entry.to_string()).collect()
}

fn input(horizontal: Axis, vertical: Axis, advance: bool) -> Event {
    Event::Input(FrameInput { horizontal, vertical, advance })
}

fn idle() -> Event {
    input(Axis::Neutral, Axis::Neutral, false)
}

/// One whole frame: both halves.
fn frame(game: &mut GameLoop, event: Event) -> Vec<Action> {
    let mut actions = game.step(event);
    actions.extend(game.step(Event::FrameBoundary));
    actions
}

#[test]
fn observed_text_box_is_four_lines_of_twenty() {
    assert_eq!(TOTAL_LINES, 4);
    assert_eq!(MAX_CHARS_PER_LINE, 20);
}

#[test]
fn new_loop_starts_before_the_first_input() {
    let game = GameLoop::new(config(), script(&["hello"])).unwrap();
    assert_eq!(game.current_phase(), Phase::Staging);
    assert_eq!(
        game.snapshot(),
        LoopState {
            position: Position { x: 0, y: 100 },
            velocity: Velocity { dx: 0, dy: 0 },
            cursor: TextCursor { line: 0, column: 0, entry: 0 },
        }
    );
    assert_eq!(game.settings(), config());
    assert_eq!(game.entries_left(), 1);
    assert_eq!(
        game.sprites().staged_at(0),
        Some(SpriteAttributes { x: 0, y: 100, hflip: false, visible: true, frame: 0 })
    );
    assert_eq!(game.sprites().shown_at(0), None);
    assert_eq!(game.tiles().grid_size(), (0, 0));
    assert_eq!(game.tiles().pool_size(), 2);
    assert!(game.staged_lines().is_empty());
    assert!(game.shown_lines().is_empty());
}

#[test]
fn configuration_that_is_not_valid_makes_no_loop() {
    assert!(config().check());
    let wide = Config { sprite_width: 241, ..config() };
    let tall = Config { sprite_height: 161, ..config() };
    let one_tile = Config { tile_pool: 1, ..config() };
    let no_tile = Config { tile_pool: 0, ..config() };
    let no_lines = Config { total_lines: 0, ..config() };
    for bad in [wide, tall, one_tile, no_tile, no_lines] {
        assert!(!bad.check());
        assert!(GameLoop::new(bad, script(&["x"])).is_none());
    }
    let whole = Config { sprite_width: 240, sprite_height: 160, ..config() };
    assert!(GameLoop::new(whole, Vec::new()).is_some());
}

#[test]
fn start_off_the_display_is_brought_onto_it() {
    let edge = Config { start: Position { x: 224, y: 144 }, ..config() };
    let game = GameLoop::new(edge, Vec::new()).unwrap();
    assert_eq!(game.snapshot().position, Position { x: 224, y: 144 });
    let off = Config { start: Position { x: 225, y: 1000 }, ..config() };
    let game = GameLoop::new(off, Vec::new()).unwrap();
    assert_eq!(game.snapshot().position, Position { x: 224, y: 144 });
    let staged = game.sprites().staged_at(0).unwrap();
    assert_eq!((staged.x, staged.y), (224, 144));
}

#[test]
fn frame_without_advance_asks_for_stage_wait_and_commits() {
    let mut game = GameLoop::new(config(), script(&["hello"])).unwrap();
    assert_eq!(game.step(idle()), vec![Action::StageSprite, Action::AwaitFrame]);
    assert_eq!(game.current_phase(), Phase::Committing);
    assert_eq!(
        game.step(Event::FrameBoundary),
        vec![
            Action::CommitBackground,
            Action::CommitText,
            Action::CommitSprites,
            Action::PollInput
        ]
    );
    assert_eq!(game.current_phase(), Phase::Staging);
}

#[test]
fn frame_with_advance_redraws_and_stages_text_before_the_wait() {
    let mut game = GameLoop::new(config(), script(&["hello"])).unwrap();
    assert_eq!(
        game.step(input(Axis::Neutral, Axis::Neutral, true)),
        vec![
            Action::StageSprite,
            Action::RedrawBackground,
            Action::StageText,
            Action::AwaitFrame
        ]
    );
}

#[test]
fn events_out_of_turn_change_nothing() {
    let mut game = GameLoop::new(config(), script(&["hello"])).unwrap();
    let before = game.snapshot();
    assert_eq!(game.step(Event::FrameBoundary), Vec::<Action>::new());
    assert_eq!(game.snapshot(), before);
    assert_eq!(game.current_phase(), Phase::Staging);
    game.step(input(Axis::Positive, Axis::Neutral, true));
    let staged = game.snapshot();
    assert_eq!(game.step(input(Axis::Positive, Axis::Neutral, true)), Vec::<Action>::new());
    assert_eq!(game.snapshot(), staged);
    assert_eq!(game.current_phase(), Phase::Committing);
    assert_eq!(game.tiles().handles_issued(), 1);
}

#[test]
fn input_moves_the_sprite_one_frame_later() {
    let mut game = GameLoop::new(config(), Vec::new()).unwrap();
    frame(&mut game, input(Axis::Positive, Axis::Positive, false));
    assert_eq!(game.snapshot().position, Position { x: 0, y: 100 });
    assert_eq!(game.snapshot().velocity, Velocity { dx: 1, dy: 1 });
    frame(&mut game, idle());
    assert_eq!(game.snapshot().position, Position { x: 1, y: 101 });
    assert_eq!(game.snapshot().velocity, Velocity { dx: 0, dy: 0 });
    frame(&mut game, idle());
    assert_eq!(game.snapshot().position, Position { x: 1, y: 101 });
}

#[test]
fn staged_position_is_shown_after_the_frame_boundary() {
    let mut game = GameLoop::new(config(), Vec::new()).unwrap();
    frame(&mut game, input(Axis::Positive, Axis::Neutral, false));
    game.step(idle());
    assert_eq!(game.sprites().staged_at(0).unwrap().x, 1);
    assert_eq!(game.sprites().shown_at(0).unwrap().x, 0);
    game.step(Event::FrameBoundary);
    assert_eq!(
        game.sprites().shown_at(0),
        Some(SpriteAttributes { x: 1, y: 100, hflip: false, visible: true, frame: 0 })
    );
}

#[test]
fn holding_right_for_the_width_of_the_display_rests_at_the_right_bound() {
    let mut game = GameLoop::new(config(), Vec::new()).unwrap();
    // The first frame only takes the direction.
    frame(&mut game, input(Axis::Positive, Axis::Neutral, false));
    for _ in 0..240 {
        frame(&mut game, input(Axis::Positive, Axis::Neutral, false));
        assert!(game.snapshot().position.x <= 240 - 16);
    }
    assert_eq!(game.snapshot().position, Position { x: 224, y: 100 });
    assert_eq!(game.sprites().shown_at(0).unwrap().x, 224);
}

#[test]
fn any_run_of_input_keeps_the_sprite_on_the_display() {
    let mut game = GameLoop::new(config(), script(&["a", "b", "c"])).unwrap();
    let axes = [Axis::Negative, Axis::Neutral, Axis::Positive];
    let mut seed: u32 = 99;
    for _ in 0..3000 {
        seed = seed.wrapping_mul(1664525).wrapping_add(1013904223);
        let horizontal = axes[((seed >> 16) % 3) as usize];
        let vertical = axes[((seed >> 20) % 3) as usize];
        frame(&mut game, input(horizontal, vertical, (seed >> 28) == 0));
        let position = game.snapshot().position;
        assert!(position.x <= 224 && position.y <= 144);
        let staged = game.sprites().staged_at(0).unwrap();
        assert_eq!((staged.x, staged.y), (position.x, position.y));
    }
    assert_eq!(game.entries_left(), 0);
}

#[test]
fn advance_shows_the_next_entry_after_the_frame_boundary() {
    let mut game =
        GameLoop::new(Config { fill_pattern: 3, ..config() }, script(&["abc def", "hi"])).unwrap();
    game.step(input(Axis::Neutral, Axis::Neutral, true));
    assert_eq!(game.staged_lines(), &vec!["abc def ".to_string()]);
    assert!(game.shown_lines().is_empty());
    assert_eq!(game.snapshot().cursor, TextCursor { line: 0, column: 8, entry: 1 });
    assert_eq!(game.tiles().grid_size(), (30, 20));
    assert_eq!(game.tiles().shown_size(), (0, 0));
    game.step(Event::FrameBoundary);
    assert_eq!(game.shown_lines(), &vec!["abc def ".to_string()]);
    assert_eq!(game.tiles().shown_size(), (30, 20));
    assert_eq!(game.tiles().shown_pattern_at(0, 0), Some(3));
    assert_eq!(game.tiles().shown_pattern_at(29, 19), Some(3));
    assert!(!game.tiles().has_live_handle());
    assert_eq!(game.entries_left(), 1);

    frame(&mut game, input(Axis::Neutral, Axis::Neutral, true));
    assert_eq!(game.shown_lines(), &vec!["hi ".to_string()]);
    assert_eq!(game.snapshot().cursor, TextCursor { line: 0, column: 3, entry: 2 });
    assert_eq!(game.entries_left(), 0);
}

#[test]
fn advance_wraps_the_entry_to_the_width() {
    let narrow = Config { max_chars_per_line: 5, ..config() };
    let mut game = GameLoop::new(narrow, script(&["abc def"])).unwrap();
    frame(&mut game, input(Axis::Neutral, Axis::Neutral, true));
    assert_eq!(game.shown_lines(), &vec!["abc ".to_string(), "def ".to_string()]);
    assert_eq!(game.snapshot().cursor, TextCursor { line: 1, column: 4, entry: 1 });
}

#[test]
fn advance_with_no_entry_left_redraws_nothing() {
    let mut game = GameLoop::new(config(), script(&["only"])).unwrap();
    frame(&mut game, input(Axis::Neutral, Axis::Neutral, true));
    let cursor = game.snapshot().cursor;
    assert_eq!(cursor, TextCursor { line: 0, column: 5, entry: 1 });
    let tile = game.tiles().shown_at(0, 0).unwrap().tile;

    let actions = frame(&mut game, input(Axis::Neutral, Axis::Neutral, true));
    assert!(!actions.contains(&Action::RedrawBackground));
    assert!(!actions.contains(&Action::StageText));
    assert_eq!(game.snapshot().cursor, cursor);
    assert_eq!(game.tiles().handles_issued(), 1);
    assert_eq!(game.tiles().shown_at(0, 0).unwrap().tile, tile);
    assert_eq!(game.tiles().cell_at(0, 0).unwrap().tile, tile);
    assert_eq!(game.shown_lines(), &vec!["only ".to_string()]);
}

#[test]
fn advance_on_an_empty_script_redraws_nothing() {
    let mut game = GameLoop::new(config(), Vec::new()).unwrap();
    let actions = game.step(input(Axis::Neutral, Axis::Neutral, true));
    assert_eq!(actions, vec![Action::StageSprite, Action::AwaitFrame]);
    assert_eq!(game.snapshot().cursor, TextCursor { line: 0, column: 0, entry: 0 });
    assert_eq!(game.tiles().handles_issued(), 0);
    assert_eq!(game.tiles().grid_size(), (0, 0));
}

#[test]
fn cursor_does_not_move_without_advance() {
    let mut game = GameLoop::new(config(), script(&["one", "two"])).unwrap();
    for _ in 0..10 {
        frame(&mut game, input(Axis::Positive, Axis::Negative, false));
    }
    assert_eq!(game.snapshot().cursor, TextCursor { line: 0, column: 0, entry: 0 });
    assert_eq!(game.entries_left(), 2);
    assert!(game.shown_lines().is_empty());
}

#[test]
fn lines_beyond_the_text_box_are_not_staged() {
    let small = Config { max_chars_per_line: 3, total_lines: 2, ..config() };
    let mut game = GameLoop::new(small, script(&["aa bb cc dd", ""])).unwrap();
    frame(&mut game, input(Axis::Neutral, Axis::Neutral, true));
    assert_eq!(game.shown_lines(), &vec!["aa ".to_string(), "bb ".to_string()]);
    assert_eq!(game.snapshot().cursor, TextCursor { line: 1, column: 3, entry: 1 });
    // An entry without words clears the text.
    frame(&mut game, input(Axis::Neutral, Axis::Neutral, true));
    assert!(game.shown_lines().is_empty());
    assert_eq!(game.snapshot().cursor, TextCursor { line: 0, column: 0, entry: 2 });
}

#[test]
fn every_entry_of_a_long_script_gets_a_fresh_redraw() {
    let entries: Vec<String> = (0..40).map(|n| format!("entry number {n}")).collect();
    let mut game = GameLoop::new(Config { fill_pattern: 9, ..config() }, entries).unwrap();
    for shown in 1..=40u64 {
        let actions = frame(&mut game, input(Axis::Neutral, Axis::Neutral, true));
        assert!(actions.contains(&Action::RedrawBackground));
        assert_eq!(game.tiles().handles_issued(), shown);
        assert_eq!(game.tiles().shown_pattern_at(15, 10), Some(9));
        assert_eq!(game.shown_lines().len(), 1);
    }
    assert_eq!(game.entries_left(), 0);
}
