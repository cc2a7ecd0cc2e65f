//! The turn engine's decisions: resolving an incoming shot against the own
//! grid, recording the reply on the enemy grid, and the alternating role.
//! The terminal prompts and the socket that carries the two-byte messages
//! live outside; they only move the bytes computed here.

use crate::coord::col_of;
use crate::coord::decode_wire_coord;
use crate::coord::row_of;
use crate::coord::wire_chars;
use crate::coord::wire_coord_ok;
use crate::grid::EnemyCell;
use crate::grid::EnemyGrid;
use crate::grid::OwnCell;
use crate::grid::OwnGrid;
use crate::grid::SIZE;
use crate::grid::cell_idx;
use crate::grid::has_ship;
use vstd::prelude::*;

verus! {

/// Reply byte sent for a hit: ASCII `h`.
pub const REPLY_HIT: u8 = 104;

/// Reply byte sent for a miss: ASCII `m`.
pub const REPLY_MISS: u8 = 109;

/// State byte sent when the defender's fleet is fully destroyed: ASCII `o`.
pub const STATE_OVER: u8 = 111;

/// State byte sent while the game goes on: ASCII `n`.
pub const STATE_CONTINUE: u8 = 110;

/// What one defend step produced: the two reply bytes owed to the attacker
/// and whether the match goes on.
pub struct DefendOutcome {
    pub reply: (u8, u8),
    pub keep_playing: bool,
}

/// Resolve one incoming shot, as the defender does after reading the two
/// request bytes. Anything but `Empty` counts as a hit — a re-shot of an
/// already `Destroyed` cell still answers `'h'` — and a hit marks the cell
/// `Destroyed`. The game is over exactly when no `Ship` cell is left
/// afterwards; `Destroyed` cells do not keep the game alive.
pub fn defend_step(own_board: &mut OwnGrid, b0: u8, b1: u8) -> (out: DefendOutcome)
    requires
        old(own_board).wf(),
        wire_coord_ok(b0, b1),
    ensures
        final(own_board).wf(),
        ({
            let row = row_of(wire_chars(b0, b1));
            let col = col_of(wire_chars(b0, b1));
            let hit = old(own_board)@[cell_idx(row, col)] != OwnCell::Empty;
            let over = !has_ship(final(own_board)@);
            &&& final(own_board)@ == (if hit {
                old(own_board)@.update(cell_idx(row, col), OwnCell::Destroyed)
            } else {
                old(own_board)@
            })
            &&& out.reply.0 == (if hit {
                REPLY_HIT
            } else {
                REPLY_MISS
            })
            &&& out.reply.1 == (if over {
                STATE_OVER
            } else {
                STATE_CONTINUE
            })
            &&& out.keep_playing == !over
        }),
{
    let (row, col) = decode_wire_coord(b0, b1);
    let cell = own_board.get(row, col);
    let hit = !matches!(cell, OwnCell::Empty);
    if hit {
        own_board.set_cell(row, col, OwnCell::Destroyed);
    }
    let over = !own_board.any_ship_left();
    let result: u8 = if hit {
        REPLY_HIT
    } else {
        REPLY_MISS
    };
    let state: u8 = if over {
        STATE_OVER
    } else {
        STATE_CONTINUE
    };
    DefendOutcome { reply: (result, state), keep_playing: !over }
}

/// Record the defender's reply on the attacker's enemy grid: the targeted
/// cell becomes `Hit` exactly when the result byte is `'h'` and `Missed`
/// on any other byte; the match goes on unless the state byte is `'o'`.
pub fn apply_reply(
    enemy_board: &mut EnemyGrid,
    row: usize,
    col: usize,
    result: u8,
    state: u8,
) -> (keep_playing: bool)
    requires
        old(enemy_board).wf(),
        row < SIZE,
        col < SIZE,
    ensures
        final(enemy_board).wf(),
        final(enemy_board)@ == old(enemy_board)@.update(
            cell_idx(row as int, col as int),
            (if result == REPLY_HIT {
                EnemyCell::Hit
            } else {
                EnemyCell::Missed
            }),
        ),
        keep_playing == (state != STATE_OVER),
{
    if result == REPLY_HIT {
        enemy_board.set_cell(row, col, EnemyCell::Hit);
    } else {
        enemy_board.set_cell(row, col, EnemyCell::Missed);
    }
    state != STATE_OVER
}

/// Whose move it is and how many turns have been played so far.
#[derive(Clone, Copy, PartialEq, Eq, Structural, Debug)]
pub struct TurnState {
    pub attacker: bool,
    pub counter: u16,
}

impl TurnState {
    /// The state a match opens in: turn 1, the hosting peer attacking.
    pub fn start(host: bool) -> (t: TurnState)
        ensures
            t.attacker == host,
            t.counter == 1,
    {
        TurnState { attacker: host, counter: 1 }
    }

    /// Law: roles strictly alternate — the attacker of the next turn is the
    /// defender of this one — and the turn counter advances by one.
    pub fn advance(self) -> (t: TurnState)
        requires
            self.counter < u16::MAX,
        ensures
            t.attacker == !self.attacker,
            t.counter == self.counter + 1,
    {
        TurnState { attacker: !self.attacker, counter: self.counter + 1 }
    }
}

} // verus!
