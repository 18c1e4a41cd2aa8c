use fourinarow::board::{GameInfo, FIELD_SIZE};
use fourinarow::player::Player;
use fourinarow::protocol::SrvMsgError;

fn fresh_board_with_turn(turn: Player) -> GameInfo {
    let mut g = GameInfo::new();
    g.turn = turn;
    g
}

#[test]
fn field_is_seven_by_seven() {
    assert_eq!(FIELD_SIZE, 7);
    let g = GameInfo::new();
    assert!(g.winner.is_none());
    for c in 0..7 {
        assert!(!g.is_column_full(c));
    }
}

#[test]
fn accepted_move_flips_turn() {
    let mut g = fresh_board_with_turn(Player::One);
    let r = g.place_chip(3, Player::One);
    assert!(matches!(r, Ok(None)));
    assert_eq!(g.turn, Player::Two);
}

#[test]
fn turn_alternates_between_accepted_moves() {
    // two accepted moves in a row are by opposite players
    let mut g = fresh_board_with_turn(Player::One);
    assert!(g.place_chip(0, Player::One).is_ok());
    assert!(matches!(
        g.place_chip(1, Player::One),
        Err(Some(SrvMsgError::NotYourTurn))
    ));
    assert!(g.place_chip(1, Player::Two).is_ok());
    assert_eq!(g.turn, Player::One);
}

#[test]
fn column_out_of_range_is_invalid_column() {
    let mut g = fresh_board_with_turn(Player::One);
    let r = g.place_chip(7, Player::One);
    assert!(matches!(r, Err(Some(SrvMsgError::InvalidColumn))));
}

#[test]
fn full_column_is_invalid_column() {
    let mut g = fresh_board_with_turn(Player::One);
    // alternate inside one column until its seven cells are taken
    let mut turn = Player::One;
    for _ in 0..7 {
        assert!(g.place_chip(2, turn).is_ok());
        turn = other(turn);
    }
    assert!(g.is_column_full(2));
    let r = g.place_chip(2, turn);
    assert!(matches!(r, Err(Some(SrvMsgError::InvalidColumn))));
}

fn other(p: Player) -> Player {
    match p {
        Player::One => Player::Two,
        Player::Two => Player::One,
    }
}

#[test]
fn vertical_four_wins() {
    let mut g = fresh_board_with_turn(Player::One);
    // One stacks column 0; Two wanders
    assert!(matches!(g.place_chip(0, Player::One), Ok(None)));
    assert!(matches!(g.place_chip(1, Player::Two), Ok(None)));
    assert!(matches!(g.place_chip(0, Player::One), Ok(None)));
    assert!(matches!(g.place_chip(2, Player::Two), Ok(None)));
    assert!(matches!(g.place_chip(0, Player::One), Ok(None)));
    assert!(matches!(g.place_chip(3, Player::Two), Ok(None)));
    let r = g.place_chip(0, Player::One);
    assert!(matches!(r, Ok(Some(Player::One))));
    let w = g.winner.expect("winner recorded");
    assert_eq!(w.winner, Player::One);
    assert!(w.requesting_rematch.is_none());
}

#[test]
fn horizontal_four_wins() {
    let mut g = fresh_board_with_turn(Player::Two);
    assert!(matches!(g.place_chip(0, Player::Two), Ok(None)));
    assert!(matches!(g.place_chip(0, Player::One), Ok(None)));
    assert!(matches!(g.place_chip(1, Player::Two), Ok(None)));
    assert!(matches!(g.place_chip(1, Player::One), Ok(None)));
    assert!(matches!(g.place_chip(2, Player::Two), Ok(None)));
    assert!(matches!(g.place_chip(2, Player::One), Ok(None)));
    let r = g.place_chip(3, Player::Two);
    assert!(matches!(r, Ok(Some(Player::Two))));
}

#[test]
fn diagonal_four_wins() {
    let mut g = fresh_board_with_turn(Player::One);
    // build a staircase for One on columns 0..=3
    assert!(g.place_chip(0, Player::One).is_ok()); // (0, bottom)
    assert!(g.place_chip(1, Player::Two).is_ok());
    assert!(g.place_chip(1, Player::One).is_ok());
    assert!(g.place_chip(2, Player::Two).is_ok());
    assert!(g.place_chip(3, Player::One).is_ok());
    assert!(g.place_chip(2, Player::Two).is_ok());
    assert!(g.place_chip(2, Player::One).is_ok());
    assert!(g.place_chip(3, Player::Two).is_ok());
    assert!(g.place_chip(3, Player::One).is_ok());
    assert!(g.place_chip(6, Player::Two).is_ok());
    let r = g.place_chip(3, Player::One);
    assert!(matches!(r, Ok(Some(Player::One))), "diagonal should win: {:?}", r);
}

#[test]
fn no_move_accepted_after_game_over() {
    let mut g = fresh_board_with_turn(Player::One);
    assert!(g.place_chip(0, Player::One).is_ok());
    assert!(g.place_chip(1, Player::Two).is_ok());
    assert!(g.place_chip(0, Player::One).is_ok());
    assert!(g.place_chip(2, Player::Two).is_ok());
    assert!(g.place_chip(0, Player::One).is_ok());
    assert!(g.place_chip(3, Player::Two).is_ok());
    assert!(matches!(g.place_chip(0, Player::One), Ok(Some(Player::One))));
    // once over, both sides are rejected until a reset
    assert!(matches!(
        g.place_chip(4, Player::Two),
        Err(Some(SrvMsgError::NotYourTurn))
    ));
    assert!(matches!(
        g.place_chip(4, Player::One),
        Err(Some(SrvMsgError::NotYourTurn))
    ));
    g.reset();
    assert!(g.winner.is_none());
    let turn = g.turn;
    assert!(g.place_chip(4, turn).is_ok());
}

#[test]
fn error_leaves_board_unchanged() {
    let mut g = fresh_board_with_turn(Player::One);
    assert!(g.place_chip(5, Player::Two).is_err());
    assert_eq!(g.turn, Player::One);
    assert!(g.winner.is_none());
    assert!(!g.is_column_full(5));
}
