//! Sprite slots whose attributes are staged and flushed in one batch.
//!
//! A stage owns a fixed number of slots. Each slot holds the attributes that
//! were last staged for its sprite; the display table holds what was last
//! flushed. Staging never touches the table, and a flush copies every slot at
//! once. The stage accepts any position: keeping a sprite on the display is
//! the caller's part (see [`crate::motion`]).

use vstd::prelude::*;

verus! {

/// What the display needs to know of one sprite.
#[derive(Clone, Copy, PartialEq, Eq, Structural, Debug)]
pub struct SpriteAttributes {
    /// Pixels from the left edge of the display.
    pub x: u32,
    /// Pixels from the top edge of the display.
    pub y: u32,
    /// Whether the sprite is mirrored left to right.
    pub hflip: bool,
    /// Whether the sprite is drawn at all.
    pub visible: bool,
    /// The frame of the sprite sheet that is drawn.
    pub frame: usize,
}

/// One sprite slot of a stage: the attributes staged for its sprite.
pub struct SpriteHandle {
    staged: SpriteAttributes,
}

impl View for SpriteHandle {
    type V = SpriteAttributes;

    closed spec fn view(&self) -> SpriteAttributes {
        self.staged
    }
}

impl SpriteHandle {
    /// The attributes staged for this sprite.
    pub fn attributes(&self) -> (staged: SpriteAttributes)
        ensures
            staged == self@,
    {
        self.staged
    }

    /// Stages a position, as it is given, and hands the slot back.
    pub fn set_position(&mut self, x: u32, y: u32) -> (same: &mut Self)
        ensures
            same@ == (SpriteAttributes { x, y, ..old(self)@ }),
            *final(self) == *final(same),
    {
        self.staged.x = x;
        self.staged.y = y;
        self
    }

    /// Stages the horizontal flip and hands the slot back.
    pub fn set_flip(&mut self, hflip: bool) -> (same: &mut Self)
        ensures
            same@ == (SpriteAttributes { hflip, ..old(self)@ }),
            *final(self) == *final(same),
    {
        self.staged.hflip = hflip;
        self
    }

    /// Stages the frame of the sprite sheet and hands the slot back.
    pub fn set_frame(&mut self, frame: usize) -> (same: &mut Self)
        ensures
            same@ == (SpriteAttributes { frame, ..old(self)@ }),
            *final(self) == *final(same),
    {
        self.staged.frame = frame;
        self
    }

    /// Stages the sprite as visible and hands the slot back.
    pub fn show(&mut self) -> (same: &mut Self)
        ensures
            same@ == (SpriteAttributes { visible: true, ..old(self)@ }),
            *final(self) == *final(same),
    {
        self.staged.visible = true;
        self
    }

    /// Stages the sprite as hidden and hands the slot back.
    pub fn conceal(&mut self) -> (same: &mut Self)
        ensures
            same@ == (SpriteAttributes { visible: false, ..old(self)@ }),
            *final(self) == *final(same),
    {
        self.staged.visible = false;
        self
    }
}

/// A fixed number of sprite slots and the display table they are flushed to.
pub struct SpriteStage {
    slots: Vec<SpriteHandle>,
    table: Vec<SpriteAttributes>,
    capacity: usize,
}

impl SpriteStage {
    /// The attributes staged for each slot in use, by slot.
    pub closed spec fn staged(&self) -> Seq<SpriteAttributes> {
        Seq::new(self.slots@.len(), |i: int| self.slots@[i]@)
    }

    /// The display table: the attributes that were last flushed, by slot.
    pub closed spec fn shown(&self) -> Seq<SpriteAttributes> {
        self.table@
    }

    /// The number of slots that the stage has.
    pub closed spec fn slot_limit(&self) -> nat {
        self.capacity as nat
    }

    /// No more slots are in use than the stage has, and the table holds no
    /// more sprites than were ever staged.
    pub closed spec fn wf(&self) -> bool {
        self.slots@.len() <= self.capacity && self.table@.len() <= self.slots@.len()
    }

    /// The attributes of a sprite that was just given a slot.
    pub open spec fn fresh(frame: usize) -> SpriteAttributes {
        SpriteAttributes { x: 0, y: 0, hflip: false, visible: false, frame }
    }

    /// A stage of `capacity` slots, none of them in use.
    pub fn new(capacity: usize) -> (stage: Self)
        ensures
            stage.wf(),
            stage.slot_limit() == capacity,
            stage.staged() == Seq::<SpriteAttributes>::empty(),
            stage.shown() == Seq::<SpriteAttributes>::empty(),
    {
        SpriteStage { slots: Vec::new(), table: Vec::new(), capacity }
    }

    /// The number of slots in use.
    pub fn len(&self) -> (n: usize)
        ensures
            n == self.staged().len(),
    {
        self.slots.len()
    }

    /// The number of slots that the stage has.
    pub fn capacity(&self) -> (n: usize)
        ensures
            n == self.slot_limit(),
    {
        self.capacity
    }

    /// Takes the next free slot for a sprite that shows `frame`. The sprite
    /// starts hidden, unflipped, at the origin. `None`, and nothing changed,
    /// when every slot is in use.
    pub fn add_sprite(&mut self, frame: usize) -> (slot: Option<usize>)
        requires
            old(self).wf(),
        ensures
            final(self).wf(),
            final(self).slot_limit() == old(self).slot_limit(),
            final(self).shown() == old(self).shown(),
            slot is Some <==> old(self).staged().len() < old(self).slot_limit(),
            match slot {
                Some(taken) => taken == old(self).staged().len() && final(self).staged() == old(
                    self
                ).staged().push(Self::fresh(frame)),
                None => final(self).staged() == old(self).staged(),
            },
    {
        if self.slots.len() < self.capacity {
            let slot = self.slots.len();
            self.slots.push(
                SpriteHandle {
                    staged: SpriteAttributes { x: 0, y: 0, hflip: false, visible: false, frame },
                },
            );
            assert(self.staged() =~= old(self).staged().push(Self::fresh(frame)));
            Some(slot)
        } else {
            None
        }
    }

    /// The slot `slot`, to stage attributes on; `None` when no such slot is
    /// in use. Whatever is staged through the handle is staged on the stage.
    pub fn sprite(&mut self, slot: usize) -> (handle: Option<&mut SpriteHandle>)
        requires
            old(self).wf(),
        ensures
            final(self).wf(),
            final(self).slot_limit() == old(self).slot_limit(),
            final(self).shown() == old(self).shown(),
            handle is Some <==> slot < old(self).staged().len(),
            match handle {
                Some(staged) => staged@ == old(self).staged()[slot as int] && final(self).staged()
                    == old(self).staged().update(slot as int, final(staged)@),
                None => final(self).staged() == old(self).staged(),
            },
    {
        if slot < self.slots.len() {
            let handle = &mut self.slots[slot];
            Some(handle)
        } else {
            None
        }
    }

    /// The attributes staged for `slot`; `None` when no such slot is in use.
    pub fn staged_at(&self, slot: usize) -> (staged: Option<SpriteAttributes>)
        ensures
            slot < self.staged().len() ==> staged == Some(self.staged()[slot as int]),
            slot >= self.staged().len() ==> staged is None,
    {
        if slot < self.slots.len() {
            Some(self.slots[slot].staged)
        } else {
            None
        }
    }

    /// What the display table holds for `slot`; `None` when the table holds
    /// nothing for it.
    pub fn shown_at(&self, slot: usize) -> (shown: Option<SpriteAttributes>)
        ensures
            slot < self.shown().len() ==> shown == Some(self.shown()[slot as int]),
            slot >= self.shown().len() ==> shown is None,
    {
        if slot < self.table.len() {
            Some(self.table[slot])
        } else {
            None
        }
    }

    /// Flushes every slot to the display table at once.
    pub fn commit(&mut self)
        requires
            old(self).wf(),
        ensures
            final(self).wf(),
            final(self).slot_limit() == old(self).slot_limit(),
            final(self).staged() == old(self).staged(),
            final(self).shown() == old(self).staged(),
    {
        let mut table: Vec<SpriteAttributes> = Vec::new();
        let mut i: usize = 0;
        while i < self.slots.len()
            invariant
                0 <= i <= self.slots.len(),
                table@ == self.staged().take(i as int),
            decreases self.slots.len() - i,
        {
            table.push(self.slots[i].staged);
            assert(table@ =~= self.staged().take(i + 1));
            i = i + 1;
        }
        assert(self.staged().take(i as int) =~= self.staged());
        self.table = table;
    }
}

} // verus!
