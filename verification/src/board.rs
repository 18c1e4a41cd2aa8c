//! The Connect-Four board: a 7x7 grid of optional chips, the side to move,
//! and the winner record used by the rematch vote.
//!
//! Rows grow downwards in index: a dropped chip comes to rest at the largest
//! free row index of its column.

use vstd::prelude::*;
use crate::player::Player;
use crate::protocol::SrvMsgError;
use crate::rng::random_below;

verus! {

pub const FIELD_SIZE: usize = 7;

/// Which side won the game that just ended, and who has asked for a rematch
/// since then.
#[derive(Clone, Copy, Debug, PartialEq, Eq, Structural)]
pub struct WinnerInfo {
    pub winner: Player,
    pub requesting_rematch: Option<Player>,
}

/// Board, side to move, and winner record of one game.  The grid should only
/// be changed through `place_chip` and `reset`, which keep `wf`.
pub struct GameInfo {
    pub field: Vec<Vec<Option<Player>>>,
    pub turn: Player,
    pub winner: Option<WinnerInfo>,
}

impl GameInfo {
    /// The grid as a sequence of columns, each a sequence of cells.
    pub open spec fn board(self) -> Seq<Seq<Option<Player>>> {
        Seq::new(self.field@.len() as nat, |c: int| self.field@[c]@)
    }

    pub open spec fn cell_at(self, c: int, r: int) -> Option<Player> {
        self.board()[c][r]
    }

    /// Shape and gravity: 7x7, and below every chip sits another chip.
    pub open spec fn wf(self) -> bool {
        &&& self.board().len() == 7
        &&& (forall|c: int| 0 <= c < 7 ==> (#[trigger] self.board()[c]).len() == 7)
        &&& (forall|c: int, r1: int, r2: int|
            0 <= c < 7 && 0 <= r1 < r2 < 7 && (#[trigger] self.cell_at(c, r1)) is Some
                ==> (#[trigger] self.cell_at(c, r2)) is Some)
    }

    pub open spec fn column_full(self, c: int) -> bool {
        self.cell_at(c, 0) is Some
    }

    /// Four cells of `p` in a row, starting at `(c, r)` and stepping by
    /// `(dc, dr)`.
    pub open spec fn line_at(self, p: Player, c: int, r: int, dc: int, dr: int) -> bool {
        &&& self.cell_at(c, r) == Some(p)
        &&& self.cell_at(c + dc, r + dr) == Some(p)
        &&& self.cell_at(c + 2 * dc, r + 2 * dr) == Some(p)
        &&& self.cell_at(c + 3 * dc, r + 3 * dr) == Some(p)
    }

    /// `p` has four in a row somewhere, in any of the four directions.
    pub open spec fn has_four(self, p: Player) -> bool {
        exists|c: int, r: int, dc: int, dr: int|
            start_ok(c, r, dc, dr) && self.line_at(p, c, r, dc, dr)
    }

    /// The row a chip dropped into column `column` comes to rest in.
    pub open spec fn placement_target(self, column: int, row: int) -> bool {
        &&& 0 <= row < 7
        &&& self.cell_at(column, row) is None
        &&& forall|r2: int| row < r2 < 7 ==> (#[trigger] self.cell_at(column, r2)) is Some
    }

    /// A move that the rules accept.
    pub open spec fn place_accepted(self, column: int, p: Player) -> bool {
        &&& self.wf()
        &&& 0 <= column < 7
        &&& self.winner is None
        &&& p == self.turn
        &&& !self.column_full(column)
    }

    /// The winner record matches the chips on the board.
    pub open spec fn winner_matches_board(self) -> bool {
        match self.winner {
            Some(w) => self.has_four(w.winner),
            None => !self.has_four(Player::One) && !self.has_four(Player::Two),
        }
    }
}

/// The four scan directions: right, down, down-right, up-right.
pub open spec fn dir_ok(dc: int, dr: int) -> bool {
    ||| (dc == 1 && dr == 0)
    ||| (dc == 0 && dr == 1)
    ||| (dc == 1 && dr == 1)
    ||| (dc == 1 && dr == -1)
}

/// A window of four cells that lies entirely on the board.
pub open spec fn start_ok(c: int, r: int, dc: int, dr: int) -> bool {
    &&& dir_ok(dc, dr)
    &&& 0 <= c
    &&& c + 3 * dc < 7
    &&& 0 <= r
    &&& r < 7
    &&& 0 <= r + 3 * dr
    &&& r + 3 * dr < 7
}

/// An accepted move and everything it changes: the chip lands on the
/// placement target of its column, the turn flips, and the winner record is
/// brought in line with the new board.
pub open spec fn place_transition(pre: GameInfo, post: GameInfo, column: int, p: Player) -> bool {
    &&& pre.place_accepted(column, p)
    &&& post.wf()
    &&& post.turn == p.spec_other()
    &&& exists|row: int|
        #[trigger] pre.placement_target(column, row)
            && post.board() == pre.board().update(
                column,
                pre.board()[column].update(row, Some(p)),
            )
    &&& post.winner_matches_board()
    &&& (post.winner matches Some(w) ==> w.requesting_rematch is None)
}

pub open spec fn empty_board() -> Seq<Seq<Option<Player>>> {
    Seq::new(7, |c: int| Seq::new(7, |r: int| None::<Player>))
}

/// Turn alternation: an accepted move is by the side to move, and leaves
/// the other side to move; two accepted moves in a row are by opposite
/// players.
pub proof fn lemma_turn_alternation(
    pre: GameInfo,
    mid: GameInfo,
    post: GameInfo,
    c1: int,
    c2: int,
    p1: Player,
    p2: Player,
)
    requires
        place_transition(pre, mid, c1, p1),
        place_transition(mid, post, c2, p2),
    ensures
        p2 == p1.spec_other(),
{
}

/// At most one winner: once the winner record is set, no further move is
/// accepted until the board is reset — every accepted move starts from a
/// board without a winner.
pub proof fn lemma_no_move_after_game_over(pre: GameInfo, post: GameInfo, column: int, p: Player)
    requires
        place_transition(pre, post, column, p),
    ensures
        pre.winner is None,
{
}

fn opt_player_eq(a: Option<Player>, b: Option<Player>) -> (r: bool)
    ensures
        r == (a == b),
{
    match (a, b) {
        (None, None) => true,
        (Some(x), Some(y)) => x == y,
        _ => false,
    }
}

impl GameInfo {
    /// A fresh board; the starting side is drawn at random.
    pub fn new() -> (g: GameInfo)
        ensures
            g.wf(),
            g.board() == empty_board(),
            g.winner is None,
    {
        let mut field: Vec<Vec<Option<Player>>> = Vec::new();
        let mut c: usize = 0;
        while c < FIELD_SIZE
            invariant
                c <= 7,
                field@.len() == c,
                forall|i: int| 0 <= i < c ==> (#[trigger] field@[i])@ =~= Seq::new(
                    7,
                    |r: int| None::<Player>,
                ),
            decreases 7 - c,
        {
            let mut col: Vec<Option<Player>> = Vec::new();
            let mut r: usize = 0;
            while r < FIELD_SIZE
                invariant
                    r <= 7,
                    col@.len() == r,
                    forall|j: int| 0 <= j < r ==> col@[j] is None,
                decreases 7 - r,
            {
                col.push(None);
                r += 1;
            }
            proof {
                assert(col@ =~= Seq::new(7, |r: int| None::<Player>));
            }
            field.push(col);
            c += 1;
        }
        let turn: Player = if random_below(2) == 0 {
            Player::One
        } else {
            Player::Two
        };
        let g = GameInfo { field, turn, winner: None };
        proof {
            assert(g.board() =~~= empty_board());
        }
        g
    }

    /// Clears the grid, forgets the winner, and draws a new starting side.
    pub fn reset(&mut self)
        ensures
            final(self).wf(),
            final(self).board() == empty_board(),
            final(self).winner is None,
    {
        *self = Self::new();
    }

    fn get(&self, c: usize, r: usize) -> (x: Option<Player>)
        requires
            self.wf(),
            c < 7,
            r < 7,
        ensures
            x == self.cell_at(c as int, r as int),
    {
        self.field[c][r]
    }

    /// Checks the four windows that start at `(c, r)`.
    fn check_lines_at(&self, c: usize, r: usize) -> (res: Option<Player>)
        requires
            self.wf(),
            c < 7,
            r < 7,
        ensures
            match res {
                Some(p) => self.has_four(p),
                None => forall|dc: int, dr: int, p: Player|
                    start_ok(c as int, r as int, dc, dr)
                        ==> !self.line_at(p, c as int, r as int, dc, dr),
            },
    {
        let a = self.get(c, r);
        let p = match a {
            Some(p) => p,
            None => {
                return None;
            },
        };
        let win_h = c + 3 < 7
            && opt_player_eq(self.get(c + 1, r), a)
            && opt_player_eq(self.get(c + 2, r), a)
            && opt_player_eq(self.get(c + 3, r), a);
        if win_h {
            proof {
                assert(start_ok(c as int, r as int, 1, 0));
                assert(self.line_at(p, c as int, r as int, 1, 0));
            }
            return Some(p);
        }
        let win_v = r + 3 < 7
            && opt_player_eq(self.get(c, r + 1), a)
            && opt_player_eq(self.get(c, r + 2), a)
            && opt_player_eq(self.get(c, r + 3), a);
        if win_v {
            proof {
                assert(start_ok(c as int, r as int, 0, 1));
                assert(self.line_at(p, c as int, r as int, 0, 1));
            }
            return Some(p);
        }
        let win_d = c + 3 < 7 && r + 3 < 7
            && opt_player_eq(self.get(c + 1, r + 1), a)
            && opt_player_eq(self.get(c + 2, r + 2), a)
            && opt_player_eq(self.get(c + 3, r + 3), a);
        if win_d {
            proof {
                assert(start_ok(c as int, r as int, 1, 1));
                assert(self.line_at(p, c as int, r as int, 1, 1));
            }
            return Some(p);
        }
        let win_a = c + 3 < 7 && r >= 3
            && opt_player_eq(self.get(c + 1, r - 1), a)
            && opt_player_eq(self.get(c + 2, r - 2), a)
            && opt_player_eq(self.get(c + 3, r - 3), a);
        if win_a {
            proof {
                assert(start_ok(c as int, r as int, 1, -1));
                assert(self.line_at(p, c as int, r as int, 1, -1));
            }
            return Some(p);
        }
        proof {
            let ci = c as int;
            let ri = r as int;
            assert forall|dc: int, dr: int, q: Player|
                start_ok(ci, ri, dc, dr) implies !self.line_at(q, ci, ri, dc, dr) by {
                if self.cell_at(ci, ri) == Some(q) {
                    assert(q == p);
                }
            }
        }
        None
    }

    /// Scans every window of the grid for four in a row.
    pub fn check_win_internal(&self) -> (res: Option<Player>)
        requires
            self.wf(),
        ensures
            match res {
                Some(p) => self.has_four(p),
                None => !self.has_four(Player::One) && !self.has_four(Player::Two),
            },
    {
        let mut c: usize = 0;
        while c < 7
            invariant
                self.wf(),
                c <= 7,
                forall|c0: int, r0: int, dc: int, dr: int, q: Player|
                    start_ok(c0, r0, dc, dr) && c0 < c
                        ==> !self.line_at(q, c0, r0, dc, dr),
            decreases 7 - c,
        {
            let mut r: usize = 0;
            while r < 7
                invariant
                    self.wf(),
                    c < 7,
                    r <= 7,
                    forall|c0: int, r0: int, dc: int, dr: int, q: Player|
                        start_ok(c0, r0, dc, dr) && c0 < c
                            ==> !self.line_at(q, c0, r0, dc, dr),
                    forall|r0: int, dc: int, dr: int, q: Player|
                        start_ok(c as int, r0, dc, dr) && r0 < r
                            ==> !self.line_at(q, c as int, r0, dc, dr),
                decreases 7 - r,
            {
                let found = self.check_lines_at(c, r);
                if let Some(p) = found {
                    return Some(p);
                }
                r += 1;
            }
            c += 1;
        }
        proof {
            assert forall|q: Player| !self.has_four(q) by {
                if self.has_four(q) {
                    let (c0, r0, dc, dr) = choose|c0: int, r0: int, dc: int, dr: int|
                        start_ok(c0, r0, dc, dr) && self.line_at(q, c0, r0, dc, dr);
                    assert(c0 < 7);
                }
            }
        }
        None
    }

    /// Re-scans the board and records the winner when one exists.
    pub fn check_win(&mut self) -> (res: Option<Player>)
        requires
            old(self).wf(),
        ensures
            final(self).wf(),
            final(self).board() == old(self).board(),
            final(self).turn == old(self).turn,
            match res {
                Some(p) => old(self).has_four(p) && final(self).winner == (Some(WinnerInfo {
                    winner: p,
                    requesting_rematch: None,
                })),
                None => {
                    &&& !old(self).has_four(Player::One)
                    &&& !old(self).has_four(Player::Two)
                    &&& final(self).winner == old(self).winner
                },
            },
    {
        let maybe_winner = self.check_win_internal();
        if let Some(winner) = maybe_winner {
            self.winner = Some(WinnerInfo { winner, requesting_rematch: None });
        }
        proof {
            assert(self.board() =~~= old(self).board());
            assert forall|c: int| 0 <= c < 7 implies (#[trigger] self.board()[c]).len() == 7 by {
                assert(self.board()[c] == old(self).board()[c]);
            }
            assert forall|c: int, r1: int, r2: int|
                0 <= c < 7 && 0 <= r1 < r2 < 7 && (#[trigger] self.cell_at(c, r1)) is Some
                implies (#[trigger] self.cell_at(c, r2)) is Some by {
                assert(self.cell_at(c, r1) == old(self).cell_at(c, r1));
                assert(self.cell_at(c, r2) == old(self).cell_at(c, r2));
            }
            assert(self.wf());
        }
        maybe_winner
    }

    /// Applies one move.  Exactly the moves that `place_accepted` allows
    /// return `Ok`; everything else leaves the board untouched and names the
    /// offence: a column out of range or full is `InvalidColumn`, placing out
    /// of turn or after the game has ended is `NotYourTurn`.
    pub fn place_chip(&mut self, column: usize, player: Player) -> (res: Result<
        Option<Player>,
        Option<SrvMsgError>,
    >)
        requires
            old(self).wf(),
        ensures
            final(self).wf(),
            (res is Ok) == old(self).place_accepted(column as int, player),
            match res {
                Ok(w) => place_transition(*old(self), *final(self), column as int, player) && w
                    == (match final(self).winner {
                    Some(wi) => Some(wi.winner),
                    None => None::<Player>,
                }),
                Err(e) => *final(self) == *old(self) && e == (Some(
                    if column >= 7 {
                        SrvMsgError::InvalidColumn
                    } else if old(self).winner is Some || player != old(self).turn {
                        SrvMsgError::NotYourTurn
                    } else {
                        SrvMsgError::InvalidColumn
                    },
                )),
            },
    {
        if column >= FIELD_SIZE {
            return Err(Some(SrvMsgError::InvalidColumn));
        }
        let winner_present = match self.winner {
            Some(_) => true,
            None => false,
        };
        if winner_present || player != self.turn {
            return Err(Some(SrvMsgError::NotYourTurn));
        }
        if self.is_column_full(column) {
            return Err(Some(SrvMsgError::InvalidColumn));
        }
        let ghost pre: GameInfo = *self;
        let mut row: usize = FIELD_SIZE - 1;
        loop
            invariant
                self.wf(),
                *self == pre,
                column < 7,
                row < 7,
                self.cell_at(column as int, 0) is None,
                forall|r2: int| row < r2 < 7 ==> (#[trigger] self.cell_at(column as int, r2)) is Some,
            ensures
                *self == pre,
                row < 7,
                self.cell_at(column as int, row as int) is None,
                forall|r2: int| row < r2 < 7 ==> (#[trigger] self.cell_at(column as int, r2)) is Some,
            decreases row,
        {
            let occupied = match self.get(column, row) {
                Some(_) => true,
                None => false,
            };
            if !occupied {
                break;
            }
            row -= 1;
        }
        self.field[column][row] = Some(player);
        self.turn = player.other();
        proof {
            assert(pre.placement_target(column as int, row as int));
            assert(self.board() =~~= pre.board().update(
                column as int,
                pre.board()[column as int].update(row as int, Some(player)),
            ));
            assert forall|cc: int, r1: int, r2: int|
                0 <= cc < 7 && 0 <= r1 < r2 < 7 && (#[trigger] self.cell_at(cc, r1)) is Some
                implies (#[trigger] self.cell_at(cc, r2)) is Some by {
                let ci = column as int;
                let rowi = row as int;
                if cc == ci {
                    if r1 < rowi {
                        // nothing sat above the landing row before the move
                        assert(pre.cell_at(cc, r1) is Some);
                        assert(pre.cell_at(cc, rowi) is Some);
                        assert(false);
                    } else if r2 == rowi {
                        assert(self.cell_at(cc, r2) == Some(player));
                    } else {
                        // r2 > rowi, so the old column already held a chip there
                        assert(pre.cell_at(cc, r2) is Some);
                        assert(self.cell_at(cc, r2) == pre.cell_at(cc, r2));
                    }
                } else {
                    assert(pre.cell_at(cc, r1) is Some);
                    assert(self.cell_at(cc, r1) == pre.cell_at(cc, r1));
                    assert(pre.cell_at(cc, r2) is Some);
                    assert(self.cell_at(cc, r2) == pre.cell_at(cc, r2));
                }
            }
        }
        let w = self.check_win();
        Ok(w)
    }

    /// True when no cell of the column is free.
    pub fn is_column_full(&self, column: usize) -> (r: bool)
        requires
            self.wf(),
            column < 7,
        ensures
            r == self.column_full(column as int),
            r == forall|row: int| 0 <= row < 7 ==> (#[trigger] self.cell_at(column as int, row)) is Some,
    {
        let full = match self.get(column, 0) {
            Some(_) => true,
            None => false,
        };
        proof {
            if full {
                assert forall|row: int| 0 <= row < 7 implies
                    (#[trigger] self.cell_at(column as int, row)) is Some by {
                    if row > 0 {
                        assert(self.cell_at(column as int, 0) is Some);
                    }
                }
            }
        }
        full
    }
}

} // verus!
