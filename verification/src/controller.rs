//! The per-frame protocol.
//!
//! A frame has two halves, with the wait for the display's refresh between
//! them. The first half takes the frame's input and stages what follows from
//! it: the sprite's next position, and, when the dialogue is advanced, a
//! cleared background and the next entry's wrapped text. The second half
//! makes what was staged visible: background first, then text, then sprites.
//!
//! [`GameLoop::step`] takes one event and returns the actions that the caller
//! has to perform for it, in order. The loop itself only computes: waiting,
//! drawing and polling are the caller's.

use crate::background::BackgroundManager;
use crate::motion::{advance, moved, velocity_of, Axis, Bounds, Position, Velocity};
use crate::sprite::{SpriteAttributes, SpriteStage};
use crate::tokens::words_view;
use crate::wrap::{clipped, layout, layout_text, line_text, line_texts, lines_view, WrappedLine};
use vstd::prelude::*;

verus! {

/// How many lines of text the display has room for.
pub const TOTAL_LINES: usize = 4;

/// How many characters fit on one line of text.
pub const MAX_CHARS_PER_LINE: usize = 20;

/// What a loop is set up with.
#[derive(Clone, Copy, PartialEq, Eq, Structural, Debug)]
pub struct Config {
    /// The width of the display, in pixels.
    pub display_width: u32,
    /// The height of the display, in pixels.
    pub display_height: u32,
    /// The width of the moving sprite, in pixels.
    pub sprite_width: u32,
    /// The height of the moving sprite, in pixels.
    pub sprite_height: u32,
    /// The frame of the sprite sheet that the moving sprite shows.
    pub sprite_frame: usize,
    /// Where the moving sprite starts, if that is on the display; else the
    /// position on the display that is nearest to it.
    pub start: Position,
    /// The width of the background grid, in cells.
    pub grid_width: u16,
    /// The height of the background grid, in cells.
    pub grid_height: u16,
    /// The pattern that the background is cleared to.
    pub fill_pattern: u8,
    /// The number of tiles of the background's pool.
    pub tile_pool: usize,
    /// The width that text is wrapped to, in characters.
    pub max_chars_per_line: usize,
    /// The number of lines of text that the display has room for.
    pub total_lines: usize,
}

impl Config {
    /// The largest position at which the whole sprite is on the display.
    pub open spec fn bounds(&self) -> Bounds {
        Bounds {
            max_x: (self.display_width - self.sprite_width) as u32,
            max_y: (self.display_height - self.sprite_height) as u32,
        }
    }

    /// The sprite fits on the display, the pool has a tile to draw with
    /// beside the one that is shown, and there is room for a line of text.
    pub open spec fn valid(&self) -> bool {
        &&& self.sprite_width <= self.display_width
        &&& self.sprite_height <= self.display_height
        &&& self.tile_pool >= 2
        &&& self.total_lines >= 1
    }

    /// Where the moving sprite starts: at `start`, brought onto the display.
    pub open spec fn start_position(&self) -> Position {
        moved(self.start, Velocity { dx: 0, dy: 0 }, self.bounds())
    }

    /// Whether the configuration is valid.
    pub fn check(&self) -> (ok: bool)
        ensures
            ok == self.valid(),
    {
        self.sprite_width <= self.display_width && self.sprite_height <= self.display_height
            && self.tile_pool >= 2 && self.total_lines >= 1
    }
}

/// What the input reports for one frame.
#[derive(Clone, Copy, PartialEq, Eq, Structural, Debug)]
pub struct FrameInput {
    /// The direction held on the horizontal axis.
    pub horizontal: Axis,
    /// The direction held on the vertical axis.
    pub vertical: Axis,
    /// Whether the button that advances the dialogue went down in this frame.
    pub advance: bool,
}

/// What happens to a loop.
#[derive(Clone, Copy, PartialEq, Eq, Structural, Debug)]
pub enum Event {
    /// The input of a new frame was sampled.
    Input(FrameInput),
    /// The display began a new refresh.
    FrameBoundary,
}

/// Which half of a frame a loop is in.
#[derive(Clone, Copy, PartialEq, Eq, Structural, Debug)]
pub enum Phase {
    /// Before the wait: the loop takes the frame's input next.
    Staging,
    /// After the staging: the loop takes the frame boundary next.
    Committing,
}

/// What the caller of a loop has to do.
#[derive(Clone, Copy, PartialEq, Eq, Structural, Debug)]
pub enum Action {
    /// Stage the moving sprite's position.
    StageSprite,
    /// Clear the background grid to the fill pattern.
    RedrawBackground,
    /// Stage the wrapped text.
    StageText,
    /// Wait for the display to begin its next refresh.
    AwaitFrame,
    /// Make the staged background visible.
    CommitBackground,
    /// Make the staged text visible.
    CommitText,
    /// Make the staged sprites visible.
    CommitSprites,
    /// Let the input move on to the next frame.
    PollInput,
}

/// How far the dialogue has got.
#[derive(Clone, Copy, PartialEq, Eq, Structural, Debug)]
pub struct TextCursor {
    /// The line that was written last, counted from the top.
    pub line: usize,
    /// The number of characters on that line.
    pub column: usize,
    /// The entry of the script that is shown next.
    pub entry: usize,
}

/// What changes from frame to frame.
#[derive(Clone, Copy, PartialEq, Eq, Structural, Debug)]
pub struct LoopState {
    /// Where the moving sprite is.
    pub position: Position,
    /// How it moves in the next frame.
    pub velocity: Velocity,
    /// How far the dialogue has got.
    pub cursor: TextCursor,
}

/// The actions of a frame's first half.
pub open spec fn staging_actions(advancing: bool) -> Seq<Action> {
    if advancing {
        seq![Action::StageSprite, Action::RedrawBackground, Action::StageText, Action::AwaitFrame]
    } else {
        seq![Action::StageSprite, Action::AwaitFrame]
    }
}

/// The actions of a frame's second half.
pub open spec fn committing_actions() -> Seq<Action> {
    seq![Action::CommitBackground, Action::CommitText, Action::CommitSprites, Action::PollInput]
}

/// Where the cursor stands once `lines` of the entry `entry` are written:
/// on the last of them, behind its last character, with the next entry due.
pub open spec fn cursor_after(lines: Seq<Seq<Seq<char>>>, entry: usize) -> TextCursor {
    if lines.len() == 0 {
        TextCursor { line: 0, column: 0, entry: (entry + 1) as usize }
    } else {
        TextCursor {
            line: (lines.len() - 1) as usize,
            column: line_text(lines.last()).len() as usize,
            entry: (entry + 1) as usize,
        }
    }
}

/// A presentation loop: one moving sprite, a background and a dialogue.
pub struct GameLoop {
    config: Config,
    script: Vec<String>,
    state: LoopState,
    phase: Phase,
    stage: SpriteStage,
    background: BackgroundManager,
    staged_text: Vec<String>,
    shown_text: Vec<String>,
}

impl GameLoop {
    /// What the loop was set up with.
    pub closed spec fn config(&self) -> Config {
        self.config
    }

    /// The entries of the dialogue.
    pub closed spec fn script(&self) -> Seq<Seq<char>> {
        words_view(self.script@)
    }

    /// What changes from frame to frame.
    pub closed spec fn state(&self) -> LoopState {
        self.state
    }

    /// Which half of a frame the loop is in.
    pub closed spec fn phase(&self) -> Phase {
        self.phase
    }

    /// The sprite stage; the moving sprite has slot 0.
    pub closed spec fn stage(&self) -> SpriteStage {
        self.stage
    }

    /// The background.
    pub closed spec fn background(&self) -> BackgroundManager {
        self.background
    }

    /// The lines of text that are staged.
    pub closed spec fn staged_text(&self) -> Seq<Seq<char>> {
        words_view(self.staged_text@)
    }

    /// The lines of text that the display shows.
    pub closed spec fn shown_text(&self) -> Seq<Seq<char>> {
        words_view(self.shown_text@)
    }

    /// The loop is in order; [`GameLoop::lemma_invariants`] says what that
    /// comes to.
    pub closed spec fn wf(&self) -> bool {
        &&& self.config.valid()
        &&& self.stage.wf()
        &&& self.stage.slot_limit() == 1
        &&& self.stage.staged().len() == 1
        &&& self.stage.staged()[0].x == self.state.position.x
        &&& self.stage.staged()[0].y == self.state.position.y
        &&& self.config.bounds().holds(self.state.position)
        &&& self.background.wf()
        &&& self.background.live() is None
        &&& self.background.patterns().len() == self.config.tile_pool
        &&& self.background.issued() == self.state.cursor.entry
        &&& self.state.cursor.entry <= self.script@.len()
        &&& self.state.cursor.line < self.config.total_lines
        &&& self.phase == Phase::Staging ==> self.background.grid() == self.background.shown()
    }

    /// Whether `input` advances the dialogue: the button went down, and an
    /// entry is left.
    pub open spec fn advances(&self, input: FrameInput) -> bool {
        input.advance && self.state().cursor.entry < self.script().len()
    }

    /// The lines of the entry that is shown next, as far as the display has
    /// room for them.
    pub open spec fn next_lines(&self) -> Seq<Seq<Seq<char>>> {
        clipped(
            layout(
                self.script()[self.state().cursor.entry as int],
                self.config().max_chars_per_line as nat,
            ),
            self.config().total_lines as nat,
        )
    }

    /// What a loop in order always holds to: the sprite is on the display,
    /// at the position that is staged for it, in the one slot of the stage;
    /// the cursor is on a line that the display has and at an entry of the
    /// script or just behind the last; the background has the pool that was
    /// asked for, one scratch handle was handed out for each entry shown,
    /// and none is live; and before a frame's input the display shows the
    /// background that is staged.
    pub proof fn lemma_invariants(&self)
        requires
            self.wf(),
        ensures
            self.config().valid(),
            self.config().bounds().holds(self.state().position),
            self.stage().wf(),
            self.stage().slot_limit() == 1,
            self.stage().staged().len() == 1,
            self.stage().staged()[0].x == self.state().position.x,
            self.stage().staged()[0].y == self.state().position.y,
            self.state().cursor.line < self.config().total_lines,
            self.state().cursor.entry <= self.script().len(),
            self.background().wf(),
            self.background().live() is None,
            self.background().patterns().len() == self.config().tile_pool,
            self.background().issued() == self.state().cursor.entry,
            self.phase() == Phase::Staging ==> self.background().grid()
                == self.background().shown(),
    {
    }

    /// The velocity that `input` asks for.
    pub open spec fn velocity_for(input: FrameInput) -> Velocity {
        Velocity { dx: input.horizontal.value() as i32, dy: input.vertical.value() as i32 }
    }

    /// What a frame's first half changes.
    ///
    /// The sprite moves by the velocity of the frame before and is brought
    /// back onto the display; the input only sets the velocity of the frame
    /// to come. The new position is staged. Where the input advances the
    /// dialogue, the background is redrawn, the next entry's lines are
    /// staged as far as the display has room for them, and the cursor moves
    /// on; where it does not, background, text and cursor stay as they are.
    /// Nothing that the display shows changes.
    pub open spec fn staged_frame(before: Self, after: Self, input: FrameInput) -> bool {
        let position = moved(
            before.state().position,
            before.state().velocity,
            before.config().bounds(),
        );
        &&& after.config() == before.config()
        &&& after.script() == before.script()
        &&& after.phase() == Phase::Committing
        &&& after.state().position == position
        &&& after.state().velocity == Self::velocity_for(input)
        &&& after.stage().staged() == before.stage().staged().update(
            0,
            SpriteAttributes { x: position.x, y: position.y, ..before.stage().staged()[0] },
        )
        &&& after.stage().shown() == before.stage().shown()
        &&& after.shown_text() == before.shown_text()
        &&& after.background().same_shown(before.background())
        &&& after.background().shown_patterns() == before.background().shown_patterns()
        &&& if before.advances(input) {
            &&& BackgroundManager::redrawn(
                before.background(),
                after.background(),
                before.config().grid_width,
                before.config().grid_height,
                before.config().fill_pattern,
            )
            &&& after.staged_text() == line_texts(before.next_lines())
            &&& after.state().cursor == cursor_after(
                before.next_lines(),
                before.state().cursor.entry,
            )
        } else {
            &&& after.background() == before.background()
            &&& after.staged_text() == before.staged_text()
            &&& after.state().cursor == before.state().cursor
        }
    }

    /// What a frame's second half changes: the display shows the background,
    /// the text and the sprites that were staged. The state stays as it is.
    pub open spec fn committed_frame(before: Self, after: Self) -> bool {
        &&& after.config() == before.config()
        &&& after.script() == before.script()
        &&& after.phase() == Phase::Staging
        &&& after.state() == before.state()
        &&& BackgroundManager::committed(before.background(), after.background())
        &&& after.staged_text() == before.staged_text()
        &&& after.shown_text() == before.staged_text()
        &&& after.stage().staged() == before.stage().staged()
        &&& after.stage().shown() == before.stage().staged()
    }

    /// A loop for `script`, about to take its first frame's input.
    ///
    /// The sprite is staged at its start, brought onto the display, and
    /// visible; the dialogue is at its first entry; nothing is shown yet.
    /// `None` for a configuration that is not valid.
    pub fn new(config: Config, script: Vec<String>) -> (made: Option<GameLoop>)
        ensures
            made is Some <==> config.valid(),
            made matches Some(game) ==> {
                &&& game.wf()
                &&& game.config() == config
                &&& game.script() == words_view(script@)
                &&& game.phase() == Phase::Staging
                &&& game.state() == (LoopState {
                    position: config.start_position(),
                    velocity: Velocity { dx: 0, dy: 0 },
                    cursor: TextCursor { line: 0, column: 0, entry: 0 },
                })
                &&& game.stage().staged() == seq![
                    SpriteAttributes {
                        x: config.start_position().x,
                        y: config.start_position().y,
                        hflip: false,
                        visible: true,
                        frame: config.sprite_frame,
                    },
                ]
                &&& game.stage().shown() == Seq::<SpriteAttributes>::empty()
                &&& game.background().grid() == Seq::<crate::background::Cell>::empty()
                &&& game.background().shown() == Seq::<crate::background::Cell>::empty()
                &&& game.staged_text() == Seq::<Seq<char>>::empty()
                &&& game.shown_text() == Seq::<Seq<char>>::empty()
            },
    {
        if !config.check() {
            return None;
        }
        let bounds = Bounds {
            max_x: config.display_width - config.sprite_width,
            max_y: config.display_height - config.sprite_height,
        };
        let position = advance(config.start, Velocity { dx: 0, dy: 0 }, bounds);
        let mut stage = SpriteStage::new(1);
        stage.add_sprite(config.sprite_frame);
        match stage.sprite(0) {
            Some(handle) => {
                handle.set_position(position.x, position.y).show();
            },
            None => {},
        }
        let background = BackgroundManager::new(config.tile_pool);
        let game = GameLoop {
            config,
            script,
            state: LoopState {
                position,
                velocity: Velocity { dx: 0, dy: 0 },
                cursor: TextCursor { line: 0, column: 0, entry: 0 },
            },
            phase: Phase::Staging,
            stage,
            background,
            staged_text: Vec::new(),
            shown_text: Vec::new(),
        };
        proof {
            assert(game.stage.staged() =~= seq![
                SpriteAttributes {
                    x: position.x,
                    y: position.y,
                    hflip: false,
                    visible: true,
                    frame: config.sprite_frame,
                },
            ]);
            assert(game.staged_text() =~= Seq::<Seq<char>>::empty());
            assert(game.shown_text() =~= Seq::<Seq<char>>::empty());
        }
        Some(game)
    }

    /// Takes one event and says what the caller has to do for it, in order.
    ///
    /// In the first half of a frame the loop takes the frame's input, stages
    /// what follows from it, and ends by asking for the wait. In the second
    /// half it takes the frame boundary and asks for the commits, background
    /// first, then text, then sprites, and for the input to move on. An
    /// event out of turn changes nothing and asks for nothing.
    pub fn step(&mut self, event: Event) -> (actions: Vec<Action>)
        requires
            old(self).wf(),
        ensures
            final(self).wf(),
            match (old(self).phase(), event) {
                (Phase::Staging, Event::Input(input)) => Self::staged_frame(
                    *old(self),
                    *final(self),
                    input,
                ) && actions@ == staging_actions(old(self).advances(input)),
                (Phase::Committing, Event::FrameBoundary) => Self::committed_frame(
                    *old(self),
                    *final(self),
                ) && actions@ == committing_actions(),
                _ => *final(self) == *old(self) && actions@ == Seq::<Action>::empty(),
            },
    {
        match (self.phase, event) {
            (Phase::Staging, Event::Input(input)) => self.stage_frame(input),
            (Phase::Committing, Event::FrameBoundary) => self.commit_frame(),
            _ => Vec::new(),
        }
    }

    /// What the loop was set up with.
    pub fn settings(&self) -> (config: Config)
        ensures
            config == self.config(),
    {
        self.config
    }

    /// What changes from frame to frame, as it is now.
    pub fn snapshot(&self) -> (state: LoopState)
        ensures
            state == self.state(),
    {
        self.state
    }

    /// Which half of a frame the loop is in.
    pub fn current_phase(&self) -> (phase: Phase)
        ensures
            phase == self.phase(),
    {
        self.phase
    }

    /// How many entries of the script are still to be shown.
    pub fn entries_left(&self) -> (left: usize)
        requires
            self.wf(),
        ensures
            left == self.script().len() - self.state().cursor.entry,
    {
        self.script.len() - self.state.cursor.entry
    }

    /// The sprite stage; the moving sprite has slot 0.
    pub fn sprites(&self) -> (stage: &SpriteStage)
        ensures
            *stage == self.stage(),
    {
        &self.stage
    }

    /// The background.
    pub fn tiles(&self) -> (background: &BackgroundManager)
        ensures
            *background == self.background(),
    {
        &self.background
    }

    /// The lines of text that are staged.
    pub fn staged_lines(&self) -> (lines: &Vec<String>)
        ensures
            words_view(lines@) == self.staged_text(),
    {
        &self.staged_text
    }

    /// The lines of text that the display shows.
    pub fn shown_lines(&self) -> (lines: &Vec<String>)
        ensures
            words_view(lines@) == self.shown_text(),
    {
        &self.shown_text
    }

    /// The first half of a frame.
    fn stage_frame(&mut self, input: FrameInput) -> (actions: Vec<Action>)
        requires
            old(self).wf(),
            old(self).phase() == Phase::Staging,
        ensures
            final(self).wf(),
            Self::staged_frame(*old(self), *final(self), input),
            actions@ == staging_actions(old(self).advances(input)),
    {
        let bounds = Bounds {
            max_x: self.config.display_width - self.config.sprite_width,
            max_y: self.config.display_height - self.config.sprite_height,
        };
        let position = advance(self.state.position, self.state.velocity, bounds);
        self.state.position = position;
        self.state.velocity = velocity_of(input.horizontal, input.vertical);
        match self.stage.sprite(0) {
            Some(handle) => {
                handle.set_position(position.x, position.y);
            },
            None => {},
        }
        let mut actions: Vec<Action> = Vec::new();
        actions.push(Action::StageSprite);
        let entry = self.state.cursor.entry;
        if input.advance && entry < self.script.len() {
            proof {
                self.background.lemma_settled_has_room();
            }
            // The pool has room: the display shows what is staged, so one
            // tile at most is in use, and the pool has two.
            let drawn = self.background.redraw(
                self.config.grid_width,
                self.config.grid_height,
                self.config.fill_pattern,
            );
            assert(drawn is Ok);
            actions.push(Action::RedrawBackground);
            let lines = layout_text(self.script[entry].as_str(), self.config.max_chars_per_line);
            let texts = clipped_texts(&lines, self.config.total_lines);
            let line: usize = if texts.len() == 0 {
                0
            } else {
                texts.len() - 1
            };
            let column: usize = if texts.len() == 0 {
                0
            } else {
                texts[texts.len() - 1].as_str().unicode_len()
            };
            proof {
                assert(self.script@[entry as int]@ == old(self).script()[entry as int]);
                let shown = old(self).next_lines();
                assert(words_view(texts@) == line_texts(shown));
                if texts@.len() > 0 {
                    assert(texts@[texts@.len() - 1]@ == line_texts(shown)[shown.len() - 1]);
                }
            }
            self.staged_text = texts;
            self.state.cursor = TextCursor { line, column, entry: entry + 1 };
            actions.push(Action::StageText);
        }
        actions.push(Action::AwaitFrame);
        self.phase = Phase::Committing;
        actions
    }

    /// The second half of a frame.
    fn commit_frame(&mut self) -> (actions: Vec<Action>)
        requires
            old(self).wf(),
            old(self).phase() == Phase::Committing,
        ensures
            final(self).wf(),
            Self::committed_frame(*old(self), *final(self)),
            actions@ == committing_actions(),
    {
        let mut actions: Vec<Action> = Vec::new();
        self.background.commit();
        actions.push(Action::CommitBackground);
        self.shown_text = copied_texts(&self.staged_text);
        actions.push(Action::CommitText);
        self.stage.commit();
        actions.push(Action::CommitSprites);
        actions.push(Action::PollInput);
        self.phase = Phase::Staging;
        actions
    }
}

/// The characters of the first `limit` of `lines`, or of all of them where
/// there are fewer.
fn clipped_texts(lines: &Vec<WrappedLine>, limit: usize) -> (texts: Vec<String>)
    ensures
        words_view(texts@) == line_texts(clipped(lines_view(lines@), limit as nat)),
{
    let ghost all = lines_view(lines@);
    let mut texts: Vec<String> = Vec::new();
    let mut i: usize = 0;
    while i < lines.len() && i < limit
        invariant
            0 <= i <= lines.len(),
            i <= limit,
            all == lines_view(lines@),
            texts@.len() == i,
            words_view(texts@) == line_texts(all.take(i as int)),
        decreases lines.len() - i,
    {
        let ghost before = words_view(texts@);
        let text = lines[i].text();
        texts.push(text);
        proof {
            assert(all[i as int] == lines@[i as int]@);
            assert forall|k: int| 0 <= k < i + 1 implies words_view(texts@)[k] == line_texts(
                all.take(i + 1),
            )[k] by {
                if k < i {
                    assert(words_view(texts@)[k] == before[k]);
                    assert(before[k] == line_texts(all.take(i as int))[k]);
                }
            }
            assert(words_view(texts@) =~= line_texts(all.take(i + 1)));
        }
        i = i + 1;
    }
    proof {
        if lines.len() <= limit {
            assert(all.take(i as int) == all);
        }
    }
    texts
}

/// A copy of `texts`.
fn copied_texts(texts: &Vec<String>) -> (copy: Vec<String>)
    ensures
        words_view(copy@) == words_view(texts@),
{
    let mut copy: Vec<String> = Vec::new();
    let mut i: usize = 0;
    while i < texts.len()
        invariant
            0 <= i <= texts.len(),
            copy@.len() == i,
            words_view(copy@) == words_view(texts@).take(i as int),
        decreases texts.len() - i,
    {
        let ghost before = words_view(copy@);
        let text = texts[i].clone();
        assert(text@ == texts@[i as int]@);
        copy.push(text);
        proof {
            assert forall|k: int| 0 <= k < i + 1 implies words_view(copy@)[k] == words_view(
                texts@,
            ).take(i + 1)[k] by {
                if k < i {
                    assert(words_view(copy@)[k] == before[k]);
                    assert(before[k] == words_view(texts@).take(i as int)[k]);
                }
            }
            assert(words_view(copy@) =~= words_view(texts@).take(i + 1));
        }
        i = i + 1;
    }
    assert(words_view(texts@).take(i as int) == words_view(texts@));
    copy
}

} // verus!
