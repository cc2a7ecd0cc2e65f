use battleship::engine::apply_reply;
use battleship::engine::defend_step;
use battleship::engine::TurnState;
use battleship::engine::REPLY_HIT;
use battleship::engine::REPLY_MISS;
use battleship::engine::STATE_CONTINUE;
use battleship::engine::STATE_OVER;
use battleship::grid::generate_enemy_board;
use battleship::grid::EnemyCell;
use battleship::grid::OwnCell;
use battleship::grid::OwnGrid;

/// A board with the full fleet for `SIZE = 10`: ships of lengths 2, 3, 4
/// and 5 laid out horizontally on separate rows, with a ship cell at (0,0).
fn full_fleet_board() -> OwnGrid {
    let mut g = OwnGrid::new();
    for c in 0..2 {
        g.set_cell(0, c, OwnCell::Ship);
    }
    for c in 0..3 {
        g.set_cell(2, c, OwnCell::Ship);
    }
    for c in 0..4 {
        g.set_cell(4, c, OwnCell::Ship);
    }
    for c in 0..5 {
        g.set_cell(6, c, OwnCell::Ship);
    }
    g
}

#[test]
fn miss_then_continue() {
    let mut own = full_fleet_board();
    assert!(matches!(own.get(5, 1), OwnCell::Empty));
    let out = defend_step(&mut own, b'5', b'b');
    assert_eq!(out.reply.0, REPLY_MISS);
    assert_eq!(out.reply.1, STATE_CONTINUE);
    assert!(out.keep_playing);
    assert!(matches!(own.get(5, 1), OwnCell::Empty));

    let mut enemy = generate_enemy_board();
    let cont = apply_reply(&mut enemy, 5, 1, out.reply.0, out.reply.1);
    assert!(cont);
    assert!(matches!(enemy.get(5, 1), EnemyCell::Missed));

    let turn = TurnState::start(true);
    let next = turn.advance();
    assert!(!next.attacker);
    assert_eq!(next.counter, 2);
}

#[test]
fn hit_non_terminal() {
    let mut own = full_fleet_board();
    assert_eq!(own.count_ship_cells(), 14);
    assert!(matches!(own.get(0, 0), OwnCell::Ship));

    let out = defend_step(&mut own, b'0', b'a');
    assert_eq!(out.reply.0, REPLY_HIT);
    assert_eq!(out.reply.1, STATE_CONTINUE);
    assert!(out.keep_playing);
    assert!(matches!(own.get(0, 0), OwnCell::Destroyed));
    assert_eq!(own.count_ship_cells(), 13);

    let mut enemy = generate_enemy_board();
    let cont = apply_reply(&mut enemy, 0, 0, out.reply.0, out.reply.1);
    assert!(cont);
    assert!(matches!(enemy.get(0, 0), EnemyCell::Hit));
}

#[test]
fn final_hit_game_over() {
    let mut own = OwnGrid::new();
    own.set_cell(7, 4, OwnCell::Ship);

    let out = defend_step(&mut own, b'7', b'e');
    assert_eq!(out.reply.0, REPLY_HIT);
    assert_eq!(out.reply.1, STATE_OVER);
    assert!(!out.keep_playing);
    assert!(matches!(own.get(7, 4), OwnCell::Destroyed));
    assert!(!own.any_ship_left());

    let mut enemy = generate_enemy_board();
    let cont = apply_reply(&mut enemy, 7, 4, out.reply.0, out.reply.1);
    assert!(!cont);
    assert!(matches!(enemy.get(7, 4), EnemyCell::Hit));
}

#[test]
fn repeated_shot_on_destroyed_cell() {
    let mut own = full_fleet_board();
    let first = defend_step(&mut own, b'0', b'a');
    assert_eq!(first.reply.0, REPLY_HIT);
    assert!(matches!(own.get(0, 0), OwnCell::Destroyed));

    // the cell is no longer Empty, so the re-shot still answers a hit
    let second = defend_step(&mut own, b'0', b'a');
    assert_eq!(second.reply.0, REPLY_HIT);
    assert_eq!(second.reply.1, STATE_CONTINUE);
    assert!(matches!(own.get(0, 0), OwnCell::Destroyed));
    assert_eq!(own.count_ship_cells(), 13);

    let mut enemy = generate_enemy_board();
    apply_reply(&mut enemy, 0, 0, first.reply.0, first.reply.1);
    apply_reply(&mut enemy, 0, 0, second.reply.0, second.reply.1);
    assert!(matches!(enemy.get(0, 0), EnemyCell::Hit));
}

#[test]
fn defend_decodes_uppercase_column() {
    let mut own = OwnGrid::new();
    own.set_cell(3, 2, OwnCell::Ship);
    let out = defend_step(&mut own, b'3', b'C');
    assert_eq!(out.reply.0, REPLY_HIT);
    assert!(matches!(own.get(3, 2), OwnCell::Destroyed));
}

#[test]
fn unknown_result_byte_counts_as_miss() {
    let mut enemy = generate_enemy_board();
    let cont = apply_reply(&mut enemy, 2, 2, b'x', STATE_CONTINUE);
    assert!(cont);
    assert!(matches!(enemy.get(2, 2), EnemyCell::Missed));
}

#[test]
fn unknown_state_byte_counts_as_continue() {
    let mut enemy = generate_enemy_board();
    let cont = apply_reply(&mut enemy, 2, 2, REPLY_HIT, b'q');
    assert!(cont);
    assert!(matches!(enemy.get(2, 2), EnemyCell::Hit));
}

#[test]
fn roles_alternate_every_turn() {
    let mut turn = TurnState::start(false);
    assert!(!turn.attacker);
    assert_eq!(turn.counter, 1);
    for i in 0..6 {
        let next = turn.advance();
        assert_eq!(next.attacker, !turn.attacker);
        assert_eq!(next.counter, turn.counter + 1);
        assert_eq!(u32::from(next.counter), i + 2);
        turn = next;
    }
}

#[test]
fn victory_ignores_destroyed_cells() {
    let mut own = OwnGrid::new();
    own.set_cell(1, 1, OwnCell::Ship);
    own.set_cell(8, 8, OwnCell::Ship);
    assert!(own.any_ship_left());

    let first = defend_step(&mut own, b'1', b'b');
    assert_eq!(first.reply.1, STATE_CONTINUE);
    let second = defend_step(&mut own, b'8', b'i');
    assert_eq!(second.reply.1, STATE_OVER);
    assert!(!second.keep_playing);
    assert!(!own.any_ship_left());
}
