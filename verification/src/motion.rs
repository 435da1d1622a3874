//! Movement of a sprite inside the display bounds.
//!
//! A position moves by a velocity once per frame and is then brought back
//! into the range in which the whole sprite is on the display.

use vstd::prelude::*;

verus! {

/// What a direction control reports for one axis.
#[derive(Clone, Copy, PartialEq, Eq, Structural, Debug)]
pub enum Axis {
    /// Towards the origin: left, or up.
    Negative,
    /// Not pressed, or both ways at once.
    Neutral,
    /// Away from the origin: right, or down.
    Positive,
}

impl Axis {
    /// The step that the direction stands for: -1, 0 or 1.
    pub open spec fn value(self) -> int {
        match self {
            Axis::Negative => -1,
            Axis::Neutral => 0,
            Axis::Positive => 1,
        }
    }

    /// The step that the direction stands for: -1, 0 or 1.
    pub fn step(self) -> (delta: i32)
        ensures
            delta == self.value(),
    {
        match self {
            Axis::Negative => -1,
            Axis::Neutral => 0,
            Axis::Positive => 1,
        }
    }
}

/// Where a sprite's top left corner is, in pixels from the display's.
#[derive(Clone, Copy, PartialEq, Eq, Structural, Debug)]
pub struct Position {
    pub x: u32,
    pub y: u32,
}

/// How far a sprite moves in one frame, in pixels.
#[derive(Clone, Copy, PartialEq, Eq, Structural, Debug)]
pub struct Velocity {
    pub dx: i32,
    pub dy: i32,
}

/// The largest position at which the whole sprite is on the display.
#[derive(Clone, Copy, PartialEq, Eq, Structural, Debug)]
pub struct Bounds {
    pub max_x: u32,
    pub max_y: u32,
}

impl Bounds {
    /// Whether `position` keeps the whole sprite on the display.
    pub open spec fn holds(self, position: Position) -> bool {
        position.x <= self.max_x && position.y <= self.max_y
    }

    /// The bounds for a sprite of the given size on a display of the given
    /// size; `None` when the sprite is larger than the display.
    pub fn for_sprite(
        display_width: u32,
        display_height: u32,
        sprite_width: u32,
        sprite_height: u32,
    ) -> (bounds: Option<Bounds>)
        ensures
            sprite_width <= display_width && sprite_height <= display_height ==> bounds == Some(
                Bounds {
                    max_x: (display_width - sprite_width) as u32,
                    max_y: (display_height - sprite_height) as u32,
                },
            ),
            sprite_width > display_width || sprite_height > display_height ==> bounds is None,
    {
        if sprite_width <= display_width && sprite_height <= display_height {
            Some(
                Bounds {
                    max_x: display_width - sprite_width,
                    max_y: display_height - sprite_height,
                },
            )
        } else {
            None
        }
    }

    /// Whether `position` keeps the whole sprite on the display.
    pub fn contains(&self, position: Position) -> (inside: bool)
        ensures
            inside == self.holds(position),
    {
        position.x <= self.max_x && position.y <= self.max_y
    }
}

/// `at + delta`, brought back into `0 ..= max`.
pub open spec fn clamp_axis(at: int, delta: int, max: int) -> int {
    if at + delta < 0 {
        0
    } else if at + delta > max {
        max
    } else {
        at + delta
    }
}

/// The position after one frame at `velocity`, brought back into `bounds`.
pub open spec fn moved(position: Position, velocity: Velocity, bounds: Bounds) -> Position {
    Position {
        x: clamp_axis(position.x as int, velocity.dx as int, bounds.max_x as int) as u32,
        y: clamp_axis(position.y as int, velocity.dy as int, bounds.max_y as int) as u32,
    }
}

/// The position after one frame for each of `velocities`, in order.
pub open spec fn travelled(
    position: Position,
    velocities: Seq<Velocity>,
    bounds: Bounds,
) -> Position
    decreases velocities.len(),
{
    if velocities.len() == 0 {
        position
    } else {
        moved(travelled(position, velocities.drop_last(), bounds), velocities.last(), bounds)
    }
}

/// Moves one coordinate by `delta` and brings it back into `0 ..= max`.
pub fn advance_axis(at: u32, delta: i32, max: u32) -> (next: u32)
    ensures
        next == clamp_axis(at as int, delta as int, max as int),
        next <= max,
{
    let sum: i64 = at as i64 + delta as i64;
    if sum < 0 {
        0
    } else if sum > max as i64 {
        max
    } else {
        sum as u32
    }
}

/// Moves `position` by `velocity` and brings it back into `bounds`.
pub fn advance(position: Position, velocity: Velocity, bounds: Bounds) -> (next: Position)
    ensures
        next == moved(position, velocity, bounds),
        bounds.holds(next),
{
    Position {
        x: advance_axis(position.x, velocity.dx, bounds.max_x),
        y: advance_axis(position.y, velocity.dy, bounds.max_y),
    }
}

/// The velocity that a direction control asks for.
pub fn velocity_of(horizontal: Axis, vertical: Axis) -> (velocity: Velocity)
    ensures
        velocity.dx == horizontal.value(),
        velocity.dy == vertical.value(),
{
    Velocity { dx: horizontal.step(), dy: vertical.step() }
}

/// After any frame a position is inside the bounds, wherever it was before.
pub proof fn lemma_moved_is_inside(position: Position, velocity: Velocity, bounds: Bounds)
    ensures
        bounds.holds(moved(position, velocity, bounds)),
{
}

/// Whatever the velocities, frame after frame, a position that has moved at
/// least once is inside the bounds, and one that started inside never leaves.
pub proof fn lemma_travelled_is_inside(
    position: Position,
    velocities: Seq<Velocity>,
    bounds: Bounds,
)
    requires
        velocities.len() > 0 || bounds.holds(position),
    ensures
        bounds.holds(travelled(position, velocities, bounds)),
    decreases velocities.len(),
{
    if velocities.len() > 0 {
        lemma_moved_is_inside(
            travelled(position, velocities.drop_last(), bounds),
            velocities.last(),
            bounds,
        );
    }
}

/// Moving right by one pixel per frame from the left edge, a sprite is `frames`
/// pixels in after `frames` frames, until it rests against the right bound.
pub proof fn lemma_travel_right(y: u32, frames: nat, bounds: Bounds)
    ensures
        travelled(
            Position { x: 0, y },
            Seq::new(frames, |i: int| Velocity { dx: 1, dy: 0 }),
            bounds,
        ).x == if frames <= bounds.max_x {
            frames as int
        } else {
            bounds.max_x as int
        },
    decreases frames,
{
    if frames > 0 {
        let steps = Seq::new(frames, |i: int| Velocity { dx: 1, dy: 0 });
        let fewer = Seq::new((frames - 1) as nat, |i: int| Velocity { dx: 1, dy: 0 });
        assert(steps.drop_last() == fewer);
        lemma_travel_right(y, (frames - 1) as nat, bounds);
    }
}

} // verus!
