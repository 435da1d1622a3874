//! A tile grid that is cleared through a short-lived scratch tile.
//!
//! A redraw takes a scratch tile from a fixed pool, gives it the fill pattern,
//! points every cell of the grid at it and lets the scratch handle go again.
//! All of this is staged: the display keeps showing the grid of the last
//! commit, pattern by pattern, until the next commit.
//!
//! Tiles are counted by reference. The live handle, every staged cell and
//! every shown cell hold one reference each to their tile, and a tile is free
//! for a later redraw only while nothing refers to it. So letting the handle
//! go never leaves a cell without its tile.

use vstd::prelude::*;

verus! {

/// One cell of the grid: the tile it shows and how.
#[derive(Clone, Copy, PartialEq, Eq, Structural, Debug)]
pub struct Cell {
    /// The tile of the pool that the cell shows.
    pub tile: usize,
    /// Whether the tile is mirrored left to right.
    pub hflip: bool,
    /// Whether the tile is mirrored top to bottom.
    pub vflip: bool,
    /// The palette that the tile is drawn with.
    pub palette: u8,
}

/// What tells one scratch handle from every other: the tile it holds, and
/// its number in the order in which handles were handed out.
#[derive(Clone, Copy, PartialEq, Eq, Structural, Debug)]
pub struct HandleId {
    pub tile: usize,
    pub serial: u64,
}

/// The handle on a scratch tile, from the moment the tile is taken until the
/// handle is let go. It cannot be copied, and letting it go uses it up.
#[derive(Debug)]
pub struct TileFillHandle {
    id: HandleId,
}

impl View for TileFillHandle {
    type V = HandleId;

    closed spec fn view(&self) -> HandleId {
        self.id
    }
}

impl TileFillHandle {
    /// What tells this handle from every other.
    pub fn id(&self) -> (id: HandleId)
        ensures
            id == self@,
    {
        self.id
    }
}

/// Why a scratch tile could not be taken, filled with or let go.
#[derive(Clone, Copy, PartialEq, Eq, Structural, Debug)]
pub enum TileError {
    /// A scratch handle is live already; there is never more than one.
    HandleLive,
    /// Every handle number has been handed out.
    SerialsExhausted,
    /// Every tile of the pool is referred to.
    PoolExhausted,
    /// The handle is not the live one.
    StaleHandle,
}

/// One tile of the pool: its pattern, and how many refer to it.
struct TileSlot {
    pattern: u8,
    refs: u64,
}

/// The cell that a fill writes: the scratch tile, unflipped, in palette 0.
pub open spec fn fill_cell(tile: usize) -> Cell {
    Cell { tile, hflip: false, vflip: false, palette: 0 }
}

/// How many of `cells` show `tile`.
pub open spec fn count_refs(cells: Seq<Cell>, tile: int) -> nat
    decreases cells.len(),
{
    if cells.len() == 0 {
        0
    } else {
        count_refs(cells.drop_last(), tile) + if cells.last().tile == tile {
            1nat
        } else {
            0nat
        }
    }
}

/// Whether one of `cells` shows `tile`.
pub open spec fn shows(cells: Seq<Cell>, tile: int) -> bool {
    exists|i: int| 0 <= i < cells.len() && #[trigger] cells[i].tile == tile
}

/// Whether all of `cells` are the same.
pub open spec fn uniform(cells: Seq<Cell>) -> bool {
    forall|i: int, j: int|
        0 <= i < cells.len() && 0 <= j < cells.len() ==> #[trigger] cells[i] == #[trigger] cells[j]
}

/// No more cells show a tile than there are cells, and some cell shows the
/// tile exactly when the count is not zero.
pub proof fn lemma_count_refs(cells: Seq<Cell>, tile: int)
    ensures
        count_refs(cells, tile) <= cells.len(),
        count_refs(cells, tile) > 0 <==> shows(cells, tile),
    decreases cells.len(),
{
    if cells.len() > 0 {
        let front = cells.drop_last();
        lemma_count_refs(front, tile);
        if cells.last().tile == tile {
            assert(cells[cells.len() - 1].tile == tile);
        } else if shows(front, tile) {
            let i = choose|i: int| 0 <= i < front.len() && #[trigger] front[i].tile == tile;
            assert(cells[i].tile == tile);
        } else if shows(cells, tile) {
            let i = choose|i: int| 0 <= i < cells.len() && #[trigger] cells[i].tile == tile;
            assert(front[i].tile == tile);
        }
    }
}

/// The largest number of cells that a grid can have.
pub const MAX_CELLS: usize = 4294836225;

/// Whether `live`, if it is a handle, holds `tile`.
spec fn holds_tile(live: Option<HandleId>, tile: int) -> bool {
    live matches Some(id) && id.tile == tile
}

/// How many refer to `tile`: the cells of two grids that show it, and the
/// live handle if it holds it.
spec fn owed(one: Seq<Cell>, other: Seq<Cell>, live: Option<HandleId>, tile: int) -> nat {
    count_refs(one, tile) + count_refs(other, tile) + if holds_tile(live, tile) {
        1nat
    } else {
        0nat
    }
}

/// The reference counts of `pool` are exact for the cells of two grids and
/// the live handle, and all of these refer to tiles of the pool.
spec fn counts_hold(
    pool: Seq<TileSlot>,
    one: Seq<Cell>,
    other: Seq<Cell>,
    live: Option<HandleId>,
) -> bool {
    &&& forall|t: int|
        0 <= t < pool.len() ==> (#[trigger] pool[t]).refs == owed(one, other, live, t)
    &&& forall|i: int| 0 <= i < one.len() ==> (#[trigger] one[i]).tile < pool.len()
    &&& forall|i: int| 0 <= i < other.len() ==> (#[trigger] other[i]).tile < pool.len()
    &&& live matches Some(id) ==> id.tile < pool.len()
    &&& one.len() <= MAX_CELLS
    &&& other.len() <= MAX_CELLS
}

/// The patterns of a pool, tile by tile.
spec fn patterns_of(pool: Seq<TileSlot>) -> Seq<u8> {
    Seq::new(pool.len(), |i: int| pool[i].pattern)
}

/// Takes every cell out of `cells` and gives up its reference.
fn unref_all(
    pool: &mut Vec<TileSlot>,
    cells: &mut Vec<Cell>,
    Ghost(other): Ghost<Seq<Cell>>,
    Ghost(live): Ghost<Option<HandleId>>,
)
    requires
        counts_hold(old(pool)@, old(cells)@, other, live),
    ensures
        final(cells)@.len() == 0,
        counts_hold(final(pool)@, final(cells)@, other, live),
        patterns_of(final(pool)@) == patterns_of(old(pool)@),
{
    while cells.len() > 0
        invariant
            counts_hold(pool@, cells@, other, live),
            patterns_of(pool@) == patterns_of(old(pool)@),
        decreases cells@.len(),
    {
        let ghost before = cells@;
        let ghost slots = pool@;
        let cell = cells.pop().unwrap();
        assert(cells@ == before.drop_last());
        assert(cell == before[before.len() - 1]);
        let tile = cell.tile;
        assert(pool@[tile as int].refs >= 1);
        let slot = TileSlot { pattern: pool[tile].pattern, refs: pool[tile].refs - 1 };
        pool.set(tile, slot);
        assert(patterns_of(pool@) =~= patterns_of(slots));
        assert forall|t: int| 0 <= t < pool@.len() implies (#[trigger] pool@[t]).refs == owed(
            cells@,
            other,
            live,
            t,
        ) by {
            assert(slots[t].refs == owed(before, other, live, t));
        }
        assert forall|i: int| 0 <= i < cells@.len() implies (#[trigger] cells@[i]).tile
            < pool@.len() by {
            assert(cells@[i] == before[i]);
        }
    }
}

/// Fills the empty `cells` with `count` copies of `cell`, each with a
/// reference of its own.
fn ref_fill(
    pool: &mut Vec<TileSlot>,
    cells: &mut Vec<Cell>,
    cell: Cell,
    count: usize,
    Ghost(other): Ghost<Seq<Cell>>,
    Ghost(live): Ghost<Option<HandleId>>,
)
    requires
        old(cells)@.len() == 0,
        counts_hold(old(pool)@, old(cells)@, other, live),
        cell.tile < old(pool)@.len(),
        count <= MAX_CELLS,
    ensures
        final(cells)@ == Seq::new(count as nat, |i: int| cell),
        counts_hold(final(pool)@, final(cells)@, other, live),
        patterns_of(final(pool)@) == patterns_of(old(pool)@),
{
    let tile = cell.tile;
    while cells.len() < count
        invariant
            cells@.len() <= count <= MAX_CELLS,
            cells@ == Seq::new(cells@.len(), |i: int| cell),
            counts_hold(pool@, cells@, other, live),
            patterns_of(pool@) == patterns_of(old(pool)@),
            tile == cell.tile,
            tile < pool@.len(),
        decreases count - cells@.len(),
    {
        let ghost before = cells@;
        let ghost slots = pool@;
        proof {
            lemma_count_refs(before, tile as int);
            lemma_count_refs(other, tile as int);
        }
        cells.push(cell);
        assert(cells@.drop_last() == before);
        let slot = TileSlot { pattern: pool[tile].pattern, refs: pool[tile].refs + 1 };
        pool.set(tile, slot);
        assert(patterns_of(pool@) =~= patterns_of(slots));
        assert(cells@ =~= Seq::new(cells@.len(), |i: int| cell));
        assert forall|t: int| 0 <= t < pool@.len() implies (#[trigger] pool@[t]).refs == owed(
            cells@,
            other,
            live,
            t,
        ) by {
            assert(slots[t].refs == owed(before, other, live, t));
        }
    }
}

/// The grid, its tile pool and the one scratch handle.
pub struct BackgroundManager {
    pool: Vec<TileSlot>,
    staged: Vec<Cell>,
    staged_width: u16,
    staged_height: u16,
    visible: Vec<Cell>,
    visible_width: u16,
    visible_height: u16,
    live: Option<HandleId>,
    next_serial: u64,
}

impl BackgroundManager {
    /// The staged grid, row by row.
    pub closed spec fn grid(&self) -> Seq<Cell> {
        self.staged@
    }

    /// The number of columns of the staged grid.
    pub closed spec fn grid_width(&self) -> nat {
        self.staged_width as nat
    }

    /// The number of rows of the staged grid.
    pub closed spec fn grid_height(&self) -> nat {
        self.staged_height as nat
    }

    /// The grid that the display shows, row by row: that of the last commit.
    pub closed spec fn shown(&self) -> Seq<Cell> {
        self.visible@
    }

    /// The number of columns of the shown grid.
    pub closed spec fn shown_width(&self) -> nat {
        self.visible_width as nat
    }

    /// The number of rows of the shown grid.
    pub closed spec fn shown_height(&self) -> nat {
        self.visible_height as nat
    }

    /// The pattern of each tile of the pool.
    pub closed spec fn patterns(&self) -> Seq<u8> {
        patterns_of(self.pool@)
    }

    /// The live scratch handle, if there is one.
    pub closed spec fn live(&self) -> Option<HandleId> {
        self.live
    }

    /// How many scratch handles have been handed out so far.
    pub closed spec fn issued(&self) -> nat {
        self.next_serial as nat
    }

    /// Whether anything refers to `tile`.
    pub closed spec fn in_use(&self, tile: int) -> bool {
        0 <= tile < self.pool@.len() && self.pool@[tile].refs > 0
    }

    /// The pattern that each staged cell shows.
    pub open spec fn grid_patterns(&self) -> Seq<u8> {
        Seq::new(self.grid().len(), |i: int| self.patterns()[self.grid()[i].tile as int])
    }

    /// The pattern that each shown cell shows.
    pub open spec fn shown_patterns(&self) -> Seq<u8> {
        Seq::new(self.shown().len(), |i: int| self.patterns()[self.shown()[i].tile as int])
    }

    /// Whether the live handle, if any, holds `tile`.
    pub open spec fn held(&self, tile: int) -> bool {
        self.live() matches Some(id) && id.tile == tile
    }

    /// How many refer to `tile`: the staged cells and the shown cells that
    /// show it, and the live handle if it holds it.
    pub open spec fn references(&self, tile: int) -> nat {
        count_refs(self.grid(), tile) + count_refs(self.shown(), tile) + if self.held(tile) {
            1nat
        } else {
            0nat
        }
    }

    /// The reference counts are exact, every cell shows a tile of the pool,
    /// and the live handle holds one under a number that was handed out.
    closed spec fn counted(&self) -> bool {
        &&& counts_hold(self.pool@, self.staged@, self.visible@, self.live)
        &&& self.live matches Some(id) ==> id.serial < self.next_serial
    }

    /// The manager is in order: the reference counts are exact, every cell
    /// shows a tile of the pool, each grid has as many cells as its width and
    /// height say and shows one tile throughout, and the live handle holds a
    /// tile of the pool under a number that was handed out.
    pub closed spec fn wf(&self) -> bool {
        &&& self.counted()
        &&& self.staged@.len() == self.staged_width * self.staged_height
        &&& self.visible@.len() == self.visible_width * self.visible_height
        &&& uniform(self.staged@)
        &&& uniform(self.visible@)
    }

    /// In a manager that is in order, a tile is in use exactly when a staged
    /// cell shows it, a shown cell shows it, or the live handle holds it.
    pub proof fn lemma_in_use(&self, tile: int)
        requires
            self.wf(),
            0 <= tile < self.patterns().len(),
        ensures
            self.in_use(tile) <==> shows(self.grid(), tile) || shows(self.shown(), tile)
                || self.held(tile),
            self.in_use(tile) <==> self.references(tile) > 0,
    {
        lemma_count_refs(self.grid(), tile);
        lemma_count_refs(self.shown(), tile);
        assert(self.pool@[tile].refs == self.references(tile));
    }

    /// In a manager that is in order, every cell shows a tile of the pool
    /// that is in use, and so does the live handle, whose number was handed
    /// out; each grid has as many cells as its width and height say, and
    /// shows one tile throughout.
    pub proof fn lemma_cells_have_tiles(&self)
        requires
            self.wf(),
        ensures
            forall|i: int|
                0 <= i < self.grid().len() ==> self.in_use((#[trigger] self.grid()[i]).tile as int),
            forall|i: int|
                0 <= i < self.shown().len() ==> self.in_use(
                    (#[trigger] self.shown()[i]).tile as int,
                ),
            self.live() matches Some(id) ==> self.in_use(id.tile as int) && id.serial
                < self.issued(),
            self.grid().len() == self.grid_width() * self.grid_height(),
            self.shown().len() == self.shown_width() * self.shown_height(),
            uniform(self.grid()),
            uniform(self.shown()),
    {
        assert forall|i: int| 0 <= i < self.grid().len() implies self.in_use(
            (#[trigger] self.grid()[i]).tile as int,
        ) by {
            let t = self.grid()[i].tile as int;
            assert(self.staged@[i].tile < self.pool@.len());
            self.lemma_in_use(t);
        }
        assert forall|i: int| 0 <= i < self.shown().len() implies self.in_use(
            (#[trigger] self.shown()[i]).tile as int,
        ) by {
            let t = self.shown()[i].tile as int;
            assert(self.visible@[i].tile < self.pool@.len());
            self.lemma_in_use(t);
        }
        if let Some(id) = self.live() {
            self.lemma_in_use(id.tile as int);
        }
    }

    /// A manager with a pool of `pool_size` tiles and no grid yet.
    pub fn new(pool_size: usize) -> (manager: Self)
        ensures
            manager.wf(),
            manager.patterns().len() == pool_size,
            manager.grid() == Seq::<Cell>::empty(),
            manager.grid_width() == 0 && manager.grid_height() == 0,
            manager.shown() == Seq::<Cell>::empty(),
            manager.shown_width() == 0 && manager.shown_height() == 0,
            manager.live() is None,
            manager.issued() == 0,
            forall|t: int| !manager.in_use(t),
    {
        Self::numbering_from(pool_size, 0)
    }

    /// A manager with a pool of `pool_size` tiles and no grid yet, in which
    /// `issued` handle numbers count as handed out already.
    pub fn numbering_from(pool_size: usize, issued: u64) -> (manager: Self)
        ensures
            manager.wf(),
            manager.patterns().len() == pool_size,
            manager.grid() == Seq::<Cell>::empty(),
            manager.grid_width() == 0 && manager.grid_height() == 0,
            manager.shown() == Seq::<Cell>::empty(),
            manager.shown_width() == 0 && manager.shown_height() == 0,
            manager.live() is None,
            manager.issued() == issued,
            forall|t: int| !manager.in_use(t),
    {
        let mut pool: Vec<TileSlot> = Vec::new();
        while pool.len() < pool_size
            invariant
                pool@.len() <= pool_size,
                forall|t: int| 0 <= t < pool@.len() ==> (#[trigger] pool@[t]).refs == 0,
            decreases pool_size - pool@.len(),
        {
            pool.push(TileSlot { pattern: 0, refs: 0 });
        }
        let manager = BackgroundManager {
            pool,
            staged: Vec::new(),
            staged_width: 0,
            staged_height: 0,
            visible: Vec::new(),
            visible_width: 0,
            visible_height: 0,
            live: None,
            next_serial: issued,
        };
        assert(manager.wf()) by {
            assert forall|t: int| 0 <= t < manager.pool@.len() implies (
            #[trigger] manager.pool@[t]).refs == manager.references(t) by {}
        }
        manager
    }
}

impl BackgroundManager {
    /// Whether every tile of the pool is in use.
    pub open spec fn pool_full(&self) -> bool {
        forall|t: int| 0 <= t < self.patterns().len() ==> self.in_use(t)
    }

    /// Whether `tile` is the lowest tile of the pool that nothing refers to.
    pub open spec fn lowest_free(&self, tile: usize) -> bool {
        &&& 0 <= tile < self.patterns().len()
        &&& !self.in_use(tile as int)
        &&& forall|t: int| 0 <= t < tile ==> self.in_use(t)
    }

    /// The lowest tile of the pool that nothing refers to, where there is one.
    pub open spec fn first_free(&self) -> usize {
        choose|tile: usize| self.lowest_free(tile)
    }

    /// There is one lowest free tile at most.
    pub proof fn lemma_first_free(&self, tile: usize)
        requires
            self.lowest_free(tile),
        ensures
            self.first_free() == tile,
    {
        let other = self.first_free();
        assert(self.lowest_free(other));
        if other < tile {
            assert(self.in_use(other as int));
        } else if tile < other {
            assert(self.in_use(tile as int));
        }
    }

    /// Why no scratch tile can be taken now, if none can: a handle is live,
    /// or else the handle numbers have run out, or else the pool is full.
    pub open spec fn refusal(&self) -> Option<TileError> {
        if self.live() is Some {
            Some(TileError::HandleLive)
        } else if self.issued() >= u64::MAX {
            Some(TileError::SerialsExhausted)
        } else if self.pool_full() {
            Some(TileError::PoolExhausted)
        } else {
            None
        }
    }

    /// What taking a scratch tile for `pattern` changes: the lowest tile that
    /// nothing refers to gets the pattern and is held by the handle `id`,
    /// whose number no handle had before. Both grids stay as they are, cell
    /// by cell and pattern by pattern.
    pub open spec fn acquired(before: Self, after: Self, id: HandleId, pattern: u8) -> bool {
        &&& before.live() is None
        &&& after.live() == Some(id)
        &&& id.serial == before.issued()
        &&& after.issued() == before.issued() + 1
        &&& before.lowest_free(id.tile)
        &&& id.tile == before.first_free()
        &&& after.patterns() == before.patterns().update(id.tile as int, pattern)
        &&& after.same_grids(before)
        &&& after.grid_patterns() == before.grid_patterns()
        &&& after.shown_patterns() == before.shown_patterns()
    }

    /// Whether both grids are those of `other`, cell by cell.
    pub open spec fn same_grids(&self, other: Self) -> bool {
        &&& self.grid() == other.grid()
        &&& self.grid_width() == other.grid_width()
        &&& self.grid_height() == other.grid_height()
        &&& self.same_shown(other)
    }

    /// Whether the shown grid is that of `other`, cell by cell.
    pub open spec fn same_shown(&self, other: Self) -> bool {
        &&& self.shown() == other.shown()
        &&& self.shown_width() == other.shown_width()
        &&& self.shown_height() == other.shown_height()
    }

    /// What filling the grid through the handle `id` changes: the staged grid
    /// becomes `width` by `height` cells that all show the handle's tile.
    /// The shown grid, the patterns and the handle stay as they are.
    pub open spec fn filled(
        before: Self,
        after: Self,
        id: HandleId,
        width: u16,
        height: u16,
    ) -> bool {
        &&& before.live() == Some(id)
        &&& after.live() == Some(id)
        &&& after.issued() == before.issued()
        &&& after.patterns() == before.patterns()
        &&& after.grid() == Seq::new((width * height) as nat, |i: int| fill_cell(id.tile))
        &&& after.grid_width() == width
        &&& after.grid_height() == height
        &&& after.same_shown(before)
    }

    /// What letting the handle `id` go changes: no handle is live any more.
    /// The grids and the patterns stay as they are.
    pub open spec fn released(before: Self, after: Self, id: HandleId) -> bool {
        &&& before.live() == Some(id)
        &&& after.live() is None
        &&& after.issued() == before.issued()
        &&& after.patterns() == before.patterns()
        &&& after.same_grids(before)
    }

    /// What a redraw changes: the staged grid becomes `width` by `height`
    /// cells that all show one tile, the lowest that nothing referred to
    /// before, which now has the pattern. The handle that was live meanwhile had a
    /// number of its own and is live no more. What the display shows stays
    /// as it is, cell by cell and pattern by pattern.
    pub open spec fn redrawn(
        before: Self,
        after: Self,
        width: u16,
        height: u16,
        pattern: u8,
    ) -> bool {
        let tile = before.first_free();
        &&& before.lowest_free(tile)
        &&& after.patterns() == before.patterns().update(tile as int, pattern)
        &&& after.grid() == Seq::new((width * height) as nat, |i: int| fill_cell(tile))
        &&& after.grid_width() == width
        &&& after.grid_height() == height
        &&& after.same_shown(before)
        &&& after.shown_patterns() == before.shown_patterns()
        &&& before.live() is None
        &&& after.live() is None
        &&& after.issued() == before.issued() + 1
    }

    /// What a commit changes: the display shows the staged grid.
    pub open spec fn committed(before: Self, after: Self) -> bool {
        &&& after.shown() == before.grid()
        &&& after.shown_width() == before.grid_width()
        &&& after.shown_height() == before.grid_height()
        &&& after.grid() == before.grid()
        &&& after.grid_width() == before.grid_width()
        &&& after.grid_height() == before.grid_height()
        &&& after.patterns() == before.patterns()
        &&& after.live() == before.live()
        &&& after.issued() == before.issued()
    }

    /// Takes a scratch tile and gives it `pattern`.
    ///
    /// Refused, with nothing changed, while another handle is live, when the
    /// handle numbers have run out, and when every tile is in use.
    pub fn acquire(&mut self, pattern: u8) -> (taken: Result<TileFillHandle, TileError>)
        requires
            old(self).wf(),
        ensures
            final(self).wf(),
            match taken {
                Ok(handle) => old(self).refusal() is None && Self::acquired(
                    *old(self),
                    *final(self),
                    handle@,
                    pattern,
                ),
                Err(error) => old(self).refusal() == Some(error) && *final(self) == *old(self),
            },
    {
        if self.live.is_some() {
            return Err(TileError::HandleLive);
        }
        if self.next_serial == u64::MAX {
            return Err(TileError::SerialsExhausted);
        }
        let mut tile: usize = 0;
        while tile < self.pool.len() && self.pool[tile].refs > 0
            invariant
                0 <= tile <= self.pool@.len(),
                *self == *old(self),
                forall|t: int| 0 <= t < tile ==> self.in_use(t),
            decreases self.pool@.len() - tile,
        {
            tile = tile + 1;
        }
        if tile == self.pool.len() {
            return Err(TileError::PoolExhausted);
        }
        let id = HandleId { tile, serial: self.next_serial };
        self.pool.set(tile, TileSlot { pattern, refs: 1 });
        self.live = Some(id);
        self.next_serial = self.next_serial + 1;
        proof {
            let before = *old(self);
            lemma_count_refs(before.staged@, tile as int);
            lemma_count_refs(before.visible@, tile as int);
            assert(before.pool@[tile as int].refs == before.references(tile as int));
            assert(!before.in_use(tile as int));
            before.lemma_first_free(tile);
            assert(self.patterns() =~= before.patterns().update(tile as int, pattern));
            assert forall|t: int| 0 <= t < self.pool@.len() implies (#[trigger] self.pool@[t]).refs
                == self.references(t) by {
                assert(before.pool@[t].refs == before.references(t));
            }
            assert(self.grid_patterns() =~= before.grid_patterns()) by {
                assert forall|i: int| 0 <= i < self.staged@.len() implies self.staged@[i].tile
                    != tile by {}
            }
            assert(self.shown_patterns() =~= before.shown_patterns()) by {
                assert forall|i: int| 0 <= i < self.visible@.len() implies self.visible@[i].tile
                    != tile by {}
            }
        }
        Ok(TileFillHandle { id })
    }

    /// Points every cell of a grid of `width` by `height` cells at the
    /// scratch tile of `handle`. The cells are staged; the display shows them
    /// after the next commit.
    ///
    /// Refused, with nothing changed, when `handle` is not the live handle.
    pub fn fill(&mut self, handle: &TileFillHandle, width: u16, height: u16) -> (done: Result<
        (),
        TileError,
    >)
        requires
            old(self).wf(),
        ensures
            final(self).wf(),
            old(self).live() == Some(handle@) ==> done is Ok && Self::filled(
                *old(self),
                *final(self),
                handle@,
                width,
                height,
            ),
            old(self).live() != Some(handle@) ==> done == Err::<(), TileError>(
                TileError::StaleHandle,
            ) && *final(self) == *old(self),
    {
        if !self.is_live(handle) {
            return Err(TileError::StaleHandle);
        }
        self.fill_live(handle, width, height);
        Ok(())
    }

    /// Lets the scratch handle go. Its tile stays in the pool for as long as
    /// a cell shows it.
    ///
    /// Refused, with nothing changed, when `handle` is not the live handle.
    pub fn release(&mut self, handle: TileFillHandle) -> (done: Result<(), TileError>)
        requires
            old(self).wf(),
        ensures
            final(self).wf(),
            old(self).live() == Some(handle@) ==> done is Ok && Self::released(
                *old(self),
                *final(self),
                handle@,
            ),
            old(self).live() != Some(handle@) ==> done == Err::<(), TileError>(
                TileError::StaleHandle,
            ) && *final(self) == *old(self),
    {
        if !self.is_live(&handle) {
            return Err(TileError::StaleHandle);
        }
        self.release_live(handle);
        Ok(())
    }

    /// Clears the grid to `fill_pattern`: takes a scratch tile with that
    /// pattern, points every cell of a grid of `grid_width` by `grid_height`
    /// cells at it, and lets the scratch handle go again. The display shows
    /// the cleared grid after the next commit, and until then what it showed
    /// before.
    ///
    /// Refused, with nothing changed, while a handle is live, when the
    /// handle numbers have run out, and when every tile is in use.
    pub fn redraw(&mut self, grid_width: u16, grid_height: u16, fill_pattern: u8) -> (done: Result<
        (),
        TileError,
    >)
        requires
            old(self).wf(),
        ensures
            final(self).wf(),
            match done {
                Ok(_) => old(self).refusal() is None && Self::redrawn(
                    *old(self),
                    *final(self),
                    grid_width,
                    grid_height,
                    fill_pattern,
                ),
                Err(error) => old(self).refusal() == Some(error) && *final(self) == *old(self),
            },
    {
        let handle = match self.acquire(fill_pattern) {
            Ok(handle) => handle,
            Err(error) => {
                return Err(error);
            },
        };
        self.fill_live(&handle, grid_width, grid_height);
        self.release_live(handle);
        proof {
            assert(self.shown_patterns() =~= old(self).shown_patterns());
        }
        Ok(())
    }

    /// Points every cell of a grid at the tile of the live handle.
    fn fill_live(&mut self, handle: &TileFillHandle, width: u16, height: u16)
        requires
            old(self).wf(),
            old(self).live() == Some(handle@),
        ensures
            final(self).wf(),
            Self::filled(*old(self), *final(self), handle@, width, height),
    {
        let count = cell_count(width, height);
        let cell = Cell { tile: handle.id.tile, hflip: false, vflip: false, palette: 0 };
        unref_all(&mut self.pool, &mut self.staged, Ghost(self.visible@), Ghost(self.live));
        ref_fill(
            &mut self.pool,
            &mut self.staged,
            cell,
            count,
            Ghost(self.visible@),
            Ghost(self.live),
        );
        self.staged_width = width;
        self.staged_height = height;
    }

    /// Lets the live handle go.
    fn release_live(&mut self, handle: TileFillHandle)
        requires
            old(self).wf(),
            old(self).live() == Some(handle@),
        ensures
            final(self).wf(),
            Self::released(*old(self), *final(self), handle@),
    {
        let tile = handle.id.tile;
        let ghost slots = self.pool@;
        assert(slots[tile as int].refs == old(self).references(tile as int));
        let slot = TileSlot { pattern: self.pool[tile].pattern, refs: self.pool[tile].refs - 1 };
        self.pool.set(tile, slot);
        self.live = None;
        proof {
            assert(self.patterns() =~= old(self).patterns());
            assert forall|t: int| 0 <= t < self.pool@.len() implies (#[trigger] self.pool@[t]).refs
                == self.references(t) by {
                assert(slots[t].refs == old(self).references(t));
            }
        }
    }

    /// Makes the display show the staged grid.
    pub fn commit(&mut self)
        requires
            old(self).wf(),
        ensures
            final(self).wf(),
            Self::committed(*old(self), *final(self)),
    {
        unref_all(&mut self.pool, &mut self.visible, Ghost(self.staged@), Ghost(self.live));
        if self.staged.len() > 0 {
            let cell = self.staged[0];
            let count = self.staged.len();
            proof {
                lemma_counts_swap(self.pool@, self.visible@, self.staged@, self.live);
            }
            ref_fill(
                &mut self.pool,
                &mut self.visible,
                cell,
                count,
                Ghost(self.staged@),
                Ghost(self.live),
            );
            proof {
                lemma_counts_swap(self.pool@, self.visible@, self.staged@, self.live);
                assert(self.visible@ =~= self.staged@);
            }
        } else {
            proof {
                lemma_counts_swap(self.pool@, self.visible@, self.staged@, self.live);
                assert(self.visible@ =~= self.staged@);
            }
        }
        self.visible_width = self.staged_width;
        self.visible_height = self.staged_height;
    }

    /// The number of tiles of the pool.
    pub fn pool_size(&self) -> (n: usize)
        ensures
            n == self.patterns().len(),
    {
        proof {
            assert(self.patterns().len() == self.pool@.len());
        }
        self.pool.len()
    }

    /// How many scratch handles have been handed out so far.
    pub fn handles_issued(&self) -> (n: u64)
        ensures
            n == self.issued(),
    {
        self.next_serial
    }

    /// Whether a scratch handle is live.
    pub fn has_live_handle(&self) -> (live: bool)
        ensures
            live == (self.live() is Some),
    {
        self.live.is_some()
    }

    /// Whether anything refers to `tile`; `false` for what is no tile of the
    /// pool.
    pub fn tile_in_use(&self, tile: usize) -> (used: bool)
        ensures
            used == self.in_use(tile as int),
    {
        tile < self.pool.len() && self.pool[tile].refs > 0
    }

    /// The pattern of `tile`; `None` for what is no tile of the pool.
    pub fn pattern_of(&self, tile: usize) -> (pattern: Option<u8>)
        ensures
            tile < self.patterns().len() ==> pattern == Some(self.patterns()[tile as int]),
            tile >= self.patterns().len() ==> pattern is None,
    {
        if tile < self.pool.len() {
            Some(self.pool[tile].pattern)
        } else {
            None
        }
    }

    /// The width and the height of the staged grid, in cells.
    pub fn grid_size(&self) -> (size: (u16, u16))
        ensures
            size.0 == self.grid_width(),
            size.1 == self.grid_height(),
    {
        (self.staged_width, self.staged_height)
    }

    /// The width and the height of the shown grid, in cells.
    pub fn shown_size(&self) -> (size: (u16, u16))
        ensures
            size.0 == self.shown_width(),
            size.1 == self.shown_height(),
    {
        (self.visible_width, self.visible_height)
    }

    /// The staged cell in column `x` of row `y`; `None` outside the grid.
    pub fn cell_at(&self, x: u16, y: u16) -> (cell: Option<Cell>)
        requires
            self.wf(),
        ensures
            x < self.grid_width() && y < self.grid_height() ==> cell == Some(
                self.grid()[y * self.grid_width() + x],
            ),
            x >= self.grid_width() || y >= self.grid_height() ==> cell is None,
    {
        if x < self.staged_width && y < self.staged_height {
            let at = cell_index(x, y, self.staged_width, self.staged_height);
            Some(self.staged[at])
        } else {
            None
        }
    }

    /// The shown cell in column `x` of row `y`; `None` outside the grid.
    pub fn shown_at(&self, x: u16, y: u16) -> (cell: Option<Cell>)
        requires
            self.wf(),
        ensures
            x < self.shown_width() && y < self.shown_height() ==> cell == Some(
                self.shown()[y * self.shown_width() + x],
            ),
            x >= self.shown_width() || y >= self.shown_height() ==> cell is None,
    {
        if x < self.visible_width && y < self.visible_height {
            let at = cell_index(x, y, self.visible_width, self.visible_height);
            Some(self.visible[at])
        } else {
            None
        }
    }

    /// The pattern that the display shows in column `x` of row `y`; `None`
    /// outside the grid.
    pub fn shown_pattern_at(&self, x: u16, y: u16) -> (pattern: Option<u8>)
        requires
            self.wf(),
        ensures
            x < self.shown_width() && y < self.shown_height() ==> pattern == Some(
                self.shown_patterns()[y * self.shown_width() + x],
            ),
            x >= self.shown_width() || y >= self.shown_height() ==> pattern is None,
    {
        if x < self.visible_width && y < self.visible_height {
            let at = cell_index(x, y, self.visible_width, self.visible_height);
            let tile = self.visible[at].tile;
            Some(self.pool[tile].pattern)
        } else {
            None
        }
    }

    /// A redraw and then a commit leave the display with a grid of the size
    /// asked for in which every cell shows the fill pattern, and with no
    /// scratch handle: the one of the redraw is gone, and its number is below
    /// those that later handles get.
    pub proof fn lemma_redraw_then_commit(
        before: Self,
        drawn: Self,
        after: Self,
        width: u16,
        height: u16,
        pattern: u8,
    )
        requires
            before.wf(),
            Self::redrawn(before, drawn, width, height, pattern),
            Self::committed(drawn, after),
        ensures
            after.shown_width() == width,
            after.shown_height() == height,
            after.shown().len() == width * height,
            after.shown_patterns() == Seq::new((width * height) as nat, |i: int| pattern),
            uniform(after.shown()),
            after.grid() == after.shown(),
            after.live() is None,
            before.issued() < after.issued(),
    {
        assert(after.shown_patterns() =~= Seq::new((width * height) as nat, |i: int| pattern));
    }

    /// Once the display shows what is staged and no handle is live, a pool of
    /// two tiles or more has a tile that nothing refers to: a redraw is then
    /// refused only when the handle numbers have run out.
    pub proof fn lemma_settled_has_room(&self)
        requires
            self.wf(),
            self.live() is None,
            self.grid() == self.shown(),
            self.patterns().len() >= 2,
        ensures
            !self.pool_full(),
            self.issued() < u64::MAX ==> self.refusal() is None,
    {
        let spare: int = if self.grid().len() > 0 && self.grid()[0].tile == 0 {
            1
        } else {
            0
        };
        self.lemma_in_use(spare);
        if shows(self.grid(), spare) {
            let i = choose|i: int|
                0 <= i < self.grid().len() && #[trigger] self.grid()[i].tile == spare;
            assert(self.grid()[i] == self.grid()[0]);
        }
        assert(!self.in_use(spare));
    }

    /// Whether `handle` is the live handle.
    pub fn is_live(&self, handle: &TileFillHandle) -> (live: bool)
        ensures
            live == (self.live() == Some(handle@)),
    {
        match self.live {
            Some(id) => id.tile == handle.id.tile && id.serial == handle.id.serial,
            None => false,
        }
    }
}

/// The number of cells of a grid of `width` by `height` cells.
fn cell_count(width: u16, height: u16) -> (count: usize)
    ensures
        count == width * height,
        count <= MAX_CELLS,
{
    assert(width * height <= 65535 * 65535) by (nonlinear_arith)
        requires
            0 <= width <= 65535,
            0 <= height <= 65535,
    ;
    let count: u64 = width as u64 * height as u64;
    count as usize
}

/// The place of column `x` of row `y` in a grid of `width` by `height` cells.
fn cell_index(x: u16, y: u16, width: u16, height: u16) -> (at: usize)
    requires
        x < width,
        y < height,
    ensures
        at == y * width + x,
        at < width * height,
{
    assert(y * width + x < width * height && width * height <= 65535 * 65535) by (nonlinear_arith)
        requires
            0 <= x < width <= 65535,
            0 <= y < height <= 65535,
    ;
    let at: u64 = y as u64 * width as u64 + x as u64;
    at as usize
}

/// Exact reference counts do not depend on which grid is named first.
proof fn lemma_counts_swap(
    pool: Seq<TileSlot>,
    one: Seq<Cell>,
    other: Seq<Cell>,
    live: Option<HandleId>,
)
    requires
        counts_hold(pool, one, other, live),
    ensures
        counts_hold(pool, other, one, live),
{
}

} // verus!
