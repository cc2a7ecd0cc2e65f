//! Random fleet placement: one ship of each length from 2 up to `SIZE / 2`,
//! each a straight run of cells, kept inside the grid and free of overlap.

use crate::grid::OwnCell;
use crate::grid::OwnGrid;
use crate::grid::GRID_CELLS;
use crate::grid::SIZE;
use crate::grid::cell_idx;
use crate::grid::lemma_cell_idx_injective;
use crate::grid::lemma_ship_count_no_ships;
use crate::grid::lemma_ship_count_update;
use crate::grid::on_grid;
use crate::grid::ship_count;
use crate::rng::coin_flip;
use crate::rng::new_rng;
use crate::rng::random_below;
use vstd::prelude::*;

verus! {

/// One placed ship: a straight run of `len` cells anchored at
/// `(row, col)`, running right if `horiz`, else down.
pub struct Ship {
    pub horiz: bool,
    pub row: int,
    pub col: int,
    pub len: int,
}

/// The ship covers the cell `(r, c)`.
pub open spec fn covers(sh: Ship, r: int, c: int) -> bool {
    if sh.horiz {
        r == sh.row && sh.col <= c < sh.col + sh.len
    } else {
        c == sh.col && sh.row <= r < sh.row + sh.len
    }
}

/// The ship lies entirely on the grid.
pub open spec fn in_bounds(sh: Ship) -> bool {
    &&& sh.len >= 1
    &&& 0 <= sh.row
    &&& 0 <= sh.col
    &&& if sh.horiz {
        sh.row < SIZE && sh.col + sh.len <= SIZE
    } else {
        sh.col < SIZE && sh.row + sh.len <= SIZE
    }
}

/// No cell is covered by both ships.
pub open spec fn disjoint(a: Ship, b: Ship) -> bool {
    forall|r: int, c: int| !(covers(a, r, c) && #[trigger] covers(b, r, c))
}

/// Row-major index of the `j`-th cell of the ship's run.
pub open spec fn run_cell(sh: Ship, j: int) -> int {
    if sh.horiz {
        cell_idx(sh.row, sh.col + j)
    } else {
        cell_idx(sh.row + j, sh.col)
    }
}

/// The row-major index `i` belongs to the ship's run.
pub open spec fn on_run(sh: Ship, i: int) -> bool {
    exists|j: int| 0 <= j < sh.len && #[trigger] run_cell(sh, j) == i
}

/// A complete fleet: one ship of each length from 2 up to `SIZE / 2`, all
/// in bounds and pairwise disjoint.
pub open spec fn fleet_wf(ships: Seq<Ship>) -> bool {
    &&& ships.len() == SIZE / 2 - 1
    &&& forall|k: int| 0 <= k < ships.len() ==> (#[trigger] ships[k]).len == k + 2
    &&& forall|k: int| 0 <= k < ships.len() ==> in_bounds(#[trigger] ships[k])
    &&& forall|i: int, j: int| 0 <= i < j < ships.len() ==> disjoint(ships[i], ships[j])
}

/// The grid shows exactly this fleet: `Ship` on covered cells and nothing
/// but `Empty` elsewhere.
pub open spec fn grid_matches(s: Seq<OwnCell>, ships: Seq<Ship>) -> bool {
    &&& forall|r: int, c: int|
        on_grid(r, c) ==> ((#[trigger] s[cell_idx(r, c)] == OwnCell::Ship) <==> exists|k: int|
            0 <= k < ships.len() && covers(#[trigger] ships[k], r, c))
    &&& forall|i: int| 0 <= i < s.len() ==> (#[trigger] s[i] == OwnCell::Ship || s[i] == OwnCell::Empty)
}

/// Sum of the ship lengths placed before reaching length `l`, that is
/// `2 + 3 + ... + (l - 1)`.
pub open spec fn lens_sum(l: int) -> int
    decreases l,
{
    if l <= 2 {
        0
    } else {
        lens_sum(l - 1) + (l - 1)
    }
}

/// For a ship on the grid, covering cell `(r, c)` is the same as having
/// index `cell_idx(r, c)` on its run.
pub proof fn lemma_covers_on_run(sh: Ship, r: int, c: int)
    requires
        in_bounds(sh),
        on_grid(r, c),
    ensures
        covers(sh, r, c) <==> on_run(sh, cell_idx(r, c)),
{
    if covers(sh, r, c) {
        if sh.horiz {
            assert(run_cell(sh, c - sh.col) == cell_idx(r, c));
        } else {
            assert(run_cell(sh, r - sh.row) == cell_idx(r, c));
        }
    }
    if on_run(sh, cell_idx(r, c)) {
        let j = choose|j: int| 0 <= j < sh.len && #[trigger] run_cell(sh, j) == cell_idx(r, c);
        if sh.horiz {
            lemma_cell_idx_injective(sh.row, sh.col + j, r, c);
        } else {
            lemma_cell_idx_injective(sh.row + j, sh.col, r, c);
        }
    }
}

/// Every cell of an in-bounds ship's run is a valid grid index.
pub proof fn lemma_run_cell_valid(sh: Ship, j: int)
    requires
        in_bounds(sh),
        0 <= j < sh.len,
    ensures
        0 <= run_cell(sh, j) < GRID_CELLS,
{
}

/// Distinct steps of one run land on distinct cells.
pub proof fn lemma_run_cell_distinct(sh: Ship, j1: int, j2: int)
    requires
        in_bounds(sh),
        0 <= j1 < sh.len,
        0 <= j2 < sh.len,
        j1 != j2,
    ensures
        run_cell(sh, j1) != run_cell(sh, j2),
{
    if run_cell(sh, j1) == run_cell(sh, j2) {
        if sh.horiz {
            lemma_cell_idx_injective(sh.row, sh.col + j1, sh.row, sh.col + j2);
        } else {
            lemma_cell_idx_injective(sh.row + j1, sh.col, sh.row + j2, sh.col);
        }
    }
}

/// Whether the candidate run is free of already placed ship cells, as the
/// generator checks before committing a ship.
fn can_place(g: &OwnGrid, horiz: bool, row: usize, col: usize, len: usize) -> (ok: bool)
    requires
        g.wf(),
        in_bounds((Ship { horiz, row: row as int, col: col as int, len: len as int })),
    ensures
        ok == (forall|j: int|
            0 <= j < len ==> g@[run_cell(
                (Ship { horiz, row: row as int, col: col as int, len: len as int }),
                j,
            )] != OwnCell::Ship),
{
    let ghost sh = Ship { horiz, row: row as int, col: col as int, len: len as int };
    let mut i: usize = 0;
    while i < len
        invariant
            g.wf(),
            in_bounds(sh),
            sh == (Ship { horiz, row: row as int, col: col as int, len: len as int }),
            i <= len,
            forall|j: int| 0 <= j < i ==> g@[#[trigger] run_cell(sh, j)] != OwnCell::Ship,
        decreases len - i,
    {
        let cell = if horiz {
            g.get(row, col + i)
        } else {
            g.get(row + i, col)
        };
        if matches!(cell, OwnCell::Ship) {
            proof {
                assert(g@[run_cell(sh, i as int)] == OwnCell::Ship);
            }
            return false;
        }
        i = i + 1;
    }
    true
}

/// Commit a ship: set every cell of its run to `Ship`, leaving all other
/// cells as they were. The run must be free beforehand, so the count of
/// `Ship` cells grows by exactly the ship's length.
fn place_ship(g: &mut OwnGrid, horiz: bool, row: usize, col: usize, len: usize)
    requires
        old(g).wf(),
        in_bounds((Ship { horiz, row: row as int, col: col as int, len: len as int })),
        forall|j: int|
            0 <= j < len ==> old(g)@[run_cell(
                (Ship { horiz, row: row as int, col: col as int, len: len as int }),
                j,
            )] != OwnCell::Ship,
    ensures
        final(g).wf(),
        forall|i: int|
            0 <= i < GRID_CELLS ==> final(g)@[i] == (if on_run(
                (Ship { horiz, row: row as int, col: col as int, len: len as int }),
                i,
            ) {
                OwnCell::Ship
            } else {
                old(g)@[i]
            }),
        ship_count(final(g)@) == ship_count(old(g)@) + len,
{
    let ghost sh = Ship { horiz, row: row as int, col: col as int, len: len as int };
    let ghost g0 = g@;
    let mut i: usize = 0;
    while i < len
        invariant
            g.wf(),
            in_bounds(sh),
            sh == (Ship { horiz, row: row as int, col: col as int, len: len as int }),
            g0.len() == GRID_CELLS,
            i <= len,
            forall|idx: int|
                0 <= idx < GRID_CELLS ==> g@[idx] == (if exists|j: int|
                    0 <= j < i && #[trigger] run_cell(sh, j) == idx {
                    OwnCell::Ship
                } else {
                    g0[idx]
                }),
            forall|j: int| 0 <= j < len ==> g0[#[trigger] run_cell(sh, j)] != OwnCell::Ship,
            ship_count(g@) == ship_count(g0) + i,
        decreases len - i,
    {
        proof {
            lemma_run_cell_valid(sh, i as int);
            assert forall|j: int| 0 <= j < i implies #[trigger] run_cell(sh, j) != run_cell(
                sh,
                i as int,
            ) by {
                lemma_run_cell_distinct(sh, j, i as int);
            }
            assert(g@[run_cell(sh, i as int)] != OwnCell::Ship);
            lemma_ship_count_update(g@, run_cell(sh, i as int), OwnCell::Ship);
        }
        if horiz {
            g.set_cell(row, col + i, OwnCell::Ship);
        } else {
            g.set_cell(row + i, col, OwnCell::Ship);
        }
        i = i + 1;
    }
}

/// Generate a full own board the way a match starts: for each ship length
/// in turn draw an orientation and an anchor, clamp the anchor so the run
/// stays on the grid, reject a run that crosses an already placed ship and
/// retry with the same length. Every draw consumes one attempt; `None`
/// comes back only if `max_attempts` draws were spent before the fleet was
/// complete, so a generated board always carries a well-formed fleet.
pub fn generate_own_board(max_attempts: usize) -> (r: Option<OwnGrid>)
    ensures
        r matches Some(g) ==> {
            &&& g.wf()
            &&& ship_count(g@) == lens_sum(SIZE / 2 + 1)
            &&& ship_count(g@) == 14
            &&& exists|ships: Seq<Ship>| fleet_wf(ships) && grid_matches(g@, ships)
        },
{
    let mut g = OwnGrid::new();
    proof {
        lemma_ship_count_no_ships(g@);
    }
    let mut rng = new_rng();
    let ghost mut ships: Seq<Ship> = Seq::empty();
    let num_boats: usize = SIZE / 2;
    let mut boat_len: usize = 2;
    let mut attempts: usize = max_attempts;
    while boat_len <= num_boats
        invariant
            g.wf(),
            num_boats == SIZE / 2,
            2 <= boat_len <= num_boats + 1,
            ship_count(g@) == lens_sum(boat_len as int),
            ships.len() == boat_len - 2,
            forall|k: int| 0 <= k < ships.len() ==> (#[trigger] ships[k]).len == k + 2,
            forall|k: int| 0 <= k < ships.len() ==> in_bounds(#[trigger] ships[k]),
            forall|k1: int, k2: int|
                0 <= k1 < k2 < ships.len() ==> disjoint(ships[k1], ships[k2]),
            forall|i: int|
                0 <= i < GRID_CELLS ==> ((#[trigger] g@[i]) == OwnCell::Ship <==> exists|k: int|
                    0 <= k < ships.len() && on_run(#[trigger] ships[k], i)),
            forall|i: int|
                0 <= i < GRID_CELLS ==> ((#[trigger] g@[i]) == OwnCell::Ship || g@[i]
                    == OwnCell::Empty),
        decreases attempts,
    {
        if attempts == 0 {
            return None;
        }
        attempts = attempts - 1;
        let horiz = coin_flip(&mut rng);
        let mut row = random_below(&mut rng, SIZE);
        let mut col = random_below(&mut rng, SIZE);
        if horiz {
            if col + boat_len >= SIZE {
                col = col - (col + boat_len - SIZE);
            }
        } else {
            if row + boat_len >= SIZE {
                row = row - (row + boat_len - SIZE);
            }
        }
        let ghost sh = Ship { horiz, row: row as int, col: col as int, len: boat_len as int };
        assert(in_bounds(sh));
        if can_place(&g, horiz, row, col, boat_len) {
            let ghost gpre = g@;
            let ghost old_ships = ships;
            place_ship(&mut g, horiz, row, col, boat_len);
            proof {
                ships = ships.push(sh);
                let n = old_ships.len() as int;
                assert(ships.len() == n + 1);
                assert(ships[n] == sh);
                assert(forall|k: int| 0 <= k < n ==> ships[k] == old_ships[k]);
                // the new run was free, so the new ship is disjoint from each old one
                assert forall|k: int| 0 <= k < n implies disjoint(#[trigger] old_ships[k], sh) by {
                    assert forall|r: int, c: int|
                        !(covers(old_ships[k], r, c) && #[trigger] covers(sh, r, c)) by {
                        if covers(old_ships[k], r, c) && covers(sh, r, c) {
                            assert(on_grid(r, c));
                            lemma_covers_on_run(old_ships[k], r, c);
                            lemma_covers_on_run(sh, r, c);
                            let i = cell_idx(r, c);
                            assert(0 <= i < GRID_CELLS);
                            assert(gpre[i] == OwnCell::Ship);
                            let j = choose|j: int|
                                0 <= j < sh.len && #[trigger] run_cell(sh, j) == i;
                            assert(gpre[run_cell(sh, j)] != OwnCell::Ship);
                        }
                    }
                }
                assert forall|k1: int, k2: int|
                    0 <= k1 < k2 < ships.len() implies disjoint(ships[k1], ships[k2]) by {
                    if k2 < n {
                        assert(disjoint(old_ships[k1], old_ships[k2]));
                    } else {
                        assert(disjoint(old_ships[k1], sh));
                    }
                }
                // the grid now shows exactly the extended fleet
                assert forall|i: int|
                    0 <= i < GRID_CELLS implies ((#[trigger] g@[i]) == OwnCell::Ship
                    <==> exists|k: int| 0 <= k < ships.len() && on_run(#[trigger] ships[k], i)) by {
                    if on_run(sh, i) {
                        assert(g@[i] == OwnCell::Ship);
                        assert(on_run(ships[n], i));
                    } else {
                        assert(g@[i] == gpre[i]);
                        if g@[i] == OwnCell::Ship {
                            let k = choose|k: int|
                                0 <= k < old_ships.len() && on_run(#[trigger] old_ships[k], i);
                            assert(on_run(ships[k], i));
                        }
                        if exists|k: int| 0 <= k < ships.len() && on_run(#[trigger] ships[k], i) {
                            let k = choose|k: int|
                                0 <= k < ships.len() && on_run(#[trigger] ships[k], i);
                            if k < n {
                                assert(on_run(old_ships[k], i));
                                assert(gpre[i] == OwnCell::Ship);
                            }
                        }
                    }
                }
                assert(lens_sum(boat_len + 1) == lens_sum(boat_len as int) + boat_len);
            }
            boat_len = boat_len + 1;
        }
    }
    proof {
        assert(ships.len() == SIZE / 2 - 1);
        assert(fleet_wf(ships));
        assert forall|r: int, c: int|
            on_grid(r, c) implies ((#[trigger] g@[cell_idx(r, c)]) == OwnCell::Ship
            <==> exists|k: int| 0 <= k < ships.len() && covers(#[trigger] ships[k], r, c)) by {
            assert(0 <= cell_idx(r, c) < GRID_CELLS);
            if g@[cell_idx(r, c)] == OwnCell::Ship {
                let k = choose|k: int|
                    0 <= k < ships.len() && on_run(#[trigger] ships[k], cell_idx(r, c));
                lemma_covers_on_run(ships[k], r, c);
                assert(covers(ships[k], r, c));
            }
            if exists|k: int| 0 <= k < ships.len() && covers(#[trigger] ships[k], r, c) {
                let k = choose|k: int| 0 <= k < ships.len() && covers(#[trigger] ships[k], r, c);
                lemma_covers_on_run(ships[k], r, c);
                assert(on_run(ships[k], cell_idx(r, c)));
            }
        }
        assert(grid_matches(g@, ships));
        assert(lens_sum(2) == 0);
        assert(lens_sum(3) == 2);
        assert(lens_sum(4) == 5);
        assert(lens_sum(5) == 9);
        assert(lens_sum(6) == 14);
    }
    Some(g)
}

} // verus!
