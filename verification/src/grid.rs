//! The two board models: a peer's own grid (ship placement and damage) and
//! its view of the opponent's grid (shot outcomes), both `SIZE x SIZE`.

use vstd::prelude::*;

verus! {

/// Side length of both grids. Both peers bake in the same value.
pub const SIZE: usize = 10;

/// Number of cells in a grid.
pub const GRID_CELLS: usize = SIZE * SIZE;

/// State of a cell on a peer's own grid.
#[derive(Clone, Copy, PartialEq, Eq, Structural, Debug)]
pub enum OwnCell {
    Empty,
    Ship,
    Destroyed,
}

/// What a peer knows about a cell of the opponent's grid.
#[derive(Clone, Copy, PartialEq, Eq, Structural, Debug)]
pub enum EnemyCell {
    Unknown,
    Missed,
    Hit,
}

/// Index of cell `(row, col)` in the row-major cell sequence.
pub open spec fn cell_idx(row: int, col: int) -> int {
    row * (SIZE as int) + col
}

/// `(row, col)` lies on the grid.
pub open spec fn on_grid(row: int, col: int) -> bool {
    0 <= row < SIZE && 0 <= col < SIZE
}

/// Number of `Ship` cells in a cell sequence.
pub open spec fn ship_count(s: Seq<OwnCell>) -> int
    decreases s.len(),
{
    if s.len() == 0 {
        0
    } else {
        ship_count(s.drop_last()) + if s.last() == OwnCell::Ship {
            1int
        } else {
            0int
        }
    }
}

/// Some `Ship` cell is still standing in the sequence.
pub open spec fn has_ship(s: Seq<OwnCell>) -> bool {
    exists|i: int| 0 <= i < s.len() && s[i] == OwnCell::Ship
}

/// Distinct on-grid positions have distinct row-major indices.
pub proof fn lemma_cell_idx_injective(r1: int, c1: int, r2: int, c2: int)
    requires
        on_grid(r1, c1),
        on_grid(r2, c2),
        cell_idx(r1, c1) == cell_idx(r2, c2),
    ensures
        r1 == r2 && c1 == c2,
{
}

/// Updating one cell changes `ship_count` exactly by the difference the two
/// cell values contribute.
pub proof fn lemma_ship_count_update(s: Seq<OwnCell>, i: int, v: OwnCell)
    requires
        0 <= i < s.len(),
    ensures
        ship_count(s.update(i, v)) == ship_count(s) + (if v == OwnCell::Ship {
            1int
        } else {
            0int
        }) - (if s[i] == OwnCell::Ship {
            1int
        } else {
            0int
        }),
    decreases s.len(),
{
    let t = s.update(i, v);
    if i == s.len() - 1 {
        assert(t.drop_last() =~= s.drop_last());
    } else {
        assert(t.drop_last() =~= s.drop_last().update(i, v));
        lemma_ship_count_update(s.drop_last(), i, v);
    }
}

/// A sequence without `Ship` cells counts zero ships.
pub proof fn lemma_ship_count_no_ships(s: Seq<OwnCell>)
    requires
        forall|i: int| 0 <= i < s.len() ==> s[i] != OwnCell::Ship,
    ensures
        ship_count(s) == 0,
    decreases s.len(),
{
    if s.len() > 0 {
        lemma_ship_count_no_ships(s.drop_last());
    }
}

/// A peer's own grid: ship placement and the damage taken so far.
pub struct OwnGrid {
    cells: Vec<OwnCell>,
}

impl View for OwnGrid {
    type V = Seq<OwnCell>;

    closed spec fn view(&self) -> Seq<OwnCell> {
        self.cells@
    }
}

impl OwnGrid {
    /// The grid holds exactly `SIZE * SIZE` cells.
    pub open spec fn wf(self) -> bool {
        self@.len() == GRID_CELLS
    }

    /// The cell at `(row, col)`.
    pub open spec fn cell(self, row: int, col: int) -> OwnCell {
        self@[cell_idx(row, col)]
    }

    /// An all-`Empty` grid.
    pub fn new() -> (g: OwnGrid)
        ensures
            g.wf(),
            forall|i: int| 0 <= i < GRID_CELLS ==> g@[i] == OwnCell::Empty,
    {
        let mut cells: Vec<OwnCell> = Vec::new();
        let mut i: usize = 0;
        while i < GRID_CELLS
            invariant
                i <= GRID_CELLS,
                cells@.len() == i,
                forall|j: int| 0 <= j < i ==> cells@[j] == OwnCell::Empty,
            decreases GRID_CELLS - i,
        {
            cells.push(OwnCell::Empty);
            i = i + 1;
        }
        OwnGrid { cells }
    }

    /// Read the cell at `(row, col)`.
    pub fn get(&self, row: usize, col: usize) -> (c: OwnCell)
        requires
            self.wf(),
            row < SIZE,
            col < SIZE,
        ensures
            c == self.cell(row as int, col as int),
    {
        self.cells[row * SIZE + col]
    }

    /// Overwrite the cell at `(row, col)`.
    pub fn set_cell(&mut self, row: usize, col: usize, v: OwnCell)
        requires
            old(self).wf(),
            row < SIZE,
            col < SIZE,
        ensures
            final(self).wf(),
            final(self)@ == old(self)@.update(cell_idx(row as int, col as int), v),
    {
        self.cells.set(row * SIZE + col, v);
    }

    /// Number of `Ship` cells still standing.
    pub fn count_ship_cells(&self) -> (n: usize)
        requires
            self.wf(),
        ensures
            n == ship_count(self@),
    {
        let mut n: usize = 0;
        let mut i: usize = 0;
        while i < GRID_CELLS
            invariant
                self.wf(),
                i <= GRID_CELLS,
                n == ship_count(self@.take(i as int)),
                n <= i,
            decreases GRID_CELLS - i,
        {
            proof {
                assert(self@.take(i + 1).drop_last() =~= self@.take(i as int));
            }
            if matches!(self.cells[i], OwnCell::Ship) {
                n = n + 1;
            }
            i = i + 1;
        }
        proof {
            assert(self@.take(GRID_CELLS as int) =~= self@);
        }
        n
    }

    /// Whether any `Ship` cell is left; `false` means the fleet is sunk.
    pub fn any_ship_left(&self) -> (b: bool)
        requires
            self.wf(),
        ensures
            b == has_ship(self@),
    {
        let mut i: usize = 0;
        while i < GRID_CELLS
            invariant
                self.wf(),
                i <= GRID_CELLS,
                forall|j: int| 0 <= j < i ==> self@[j] != OwnCell::Ship,
            decreases GRID_CELLS - i,
        {
            if matches!(self.cells[i], OwnCell::Ship) {
                return true;
            }
            i = i + 1;
        }
        false
    }

    /// Glyph used when rendering a cell of the player's own board.
    pub fn glyph(c: OwnCell) -> (g: char)
        ensures
            g == (match c {
                OwnCell::Empty => '\u{25e6}',
                OwnCell::Destroyed => '\u{25a1}',
                OwnCell::Ship => '\u{25a0}',
            }),
    {
        match c {
            OwnCell::Empty => '\u{25e6}',
            OwnCell::Destroyed => '\u{25a1}',
            OwnCell::Ship => '\u{25a0}',
        }
    }
}

/// A peer's record of its shots at the opponent's grid.
pub struct EnemyGrid {
    cells: Vec<EnemyCell>,
}

impl View for EnemyGrid {
    type V = Seq<EnemyCell>;

    closed spec fn view(&self) -> Seq<EnemyCell> {
        self.cells@
    }
}

impl EnemyGrid {
    /// The grid holds exactly `SIZE * SIZE` cells.
    pub open spec fn wf(self) -> bool {
        self@.len() == GRID_CELLS
    }

    /// The cell at `(row, col)`.
    pub open spec fn cell(self, row: int, col: int) -> EnemyCell {
        self@[cell_idx(row, col)]
    }

    /// Read the cell at `(row, col)`.
    pub fn get(&self, row: usize, col: usize) -> (c: EnemyCell)
        requires
            self.wf(),
            row < SIZE,
            col < SIZE,
        ensures
            c == self.cell(row as int, col as int),
    {
        self.cells[row * SIZE + col]
    }

    /// Overwrite the cell at `(row, col)`.
    pub fn set_cell(&mut self, row: usize, col: usize, v: EnemyCell)
        requires
            old(self).wf(),
            row < SIZE,
            col < SIZE,
        ensures
            final(self).wf(),
            final(self)@ == old(self)@.update(cell_idx(row as int, col as int), v),
    {
        self.cells.set(row * SIZE + col, v);
    }

    /// Glyph used when rendering a cell of the enemy board.
    pub fn glyph(c: EnemyCell) -> (g: char)
        ensures
            g == (match c {
                EnemyCell::Unknown => '\u{25e6}',
                EnemyCell::Missed => '\u{25a1}',
                EnemyCell::Hit => '\u{25a0}',
            }),
    {
        match c {
            EnemyCell::Unknown => '\u{25e6}',
            EnemyCell::Missed => '\u{25a1}',
            EnemyCell::Hit => '\u{25a0}',
        }
    }
}

/// The enemy grid a match starts from: everything `Unknown`.
pub fn generate_enemy_board() -> (g: EnemyGrid)
    ensures
        g.wf(),
        forall|i: int| 0 <= i < GRID_CELLS ==> g@[i] == EnemyCell::Unknown,
{
    let mut cells: Vec<EnemyCell> = Vec::new();
    let mut i: usize = 0;
    while i < GRID_CELLS
        invariant
            i <= GRID_CELLS,
            cells@.len() == i,
            forall|j: int| 0 <= j < i ==> cells@[j] == EnemyCell::Unknown,
        decreases GRID_CELLS - i,
    {
        cells.push(EnemyCell::Unknown);
        i = i + 1;
    }
    EnemyGrid { cells }
}

} // verus!
