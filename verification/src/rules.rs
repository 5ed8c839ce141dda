//! What each event does, said cell by cell and field by field: the rules of the table as a
//! player would state them.
use std::time::{Duration, SystemTimeError};
use vstd::prelude::*;

use crate::board;
use crate::clock;
use crate::game;
use crate::game::{Delivery, StateMsg};
use crate::laws;
use crate::model;
use crate::model::{GameView, Phase, WinReason};
use crate::request;
use crate::server;
use crate::server::{Admission, Outcome, Refusal, Reply};
use crate::stream;
use crate::stream::StreamView;
use crate::text;

verus! {

/// Whether a cell lies on the board and holds `p`.
pub open spec fn cell_is(g: Seq<Seq<u8>>, p: u8, r: int, c: int) -> bool {
    0 <= r < 6 && 0 <= c < 7 && g[r][c] == p
}

/// Whether the cell (`r`, `c`) and the next three, each `dr` rows and `dc` columns on, hold `p`.
pub open spec fn four_from(g: Seq<Seq<u8>>, p: u8, r: int, c: int, dr: int, dc: int) -> bool {
    &&& cell_is(g, p, r, c)
    &&& cell_is(g, p, r + dr, c + dc)
    &&& cell_is(g, p, r + 2 * dr, c + 2 * dc)
    &&& cell_is(g, p, r + 3 * dr, c + 3 * dc)
}

/// One of the eight ways to go on from a cell to a neighbour.
pub open spec fn is_way(dr: int, dc: int) -> bool {
    -1 <= dr <= 1 && -1 <= dc <= 1 && !(dr == 0 && dc == 0)
}

/// Four pieces of `p` in an unbroken line, in any of the eight ways.
pub open spec fn four_anywhere(g: Seq<Seq<u8>>, p: u8) -> bool {
    exists|r: int, c: int, dr: int, dc: int|
        is_way(dr, dc) && #[trigger] four_from(g, p, r, c, dr, dc)
}

/// Rank of a way in the search: right, down, down right, down left.
pub open spec fn way_rank(dr: int, dc: int) -> int {
    if dr == 0 {
        0
    } else {
        if dc == 0 {
            1
        } else {
            if dc == 1 {
                2
            } else {
                3
            }
        }
    }
}

/// The search for four in a row and the plain notion of it agree.
pub proof fn law_four_means_four(g: Seq<Seq<u8>>, p: u8)
    ensures
        board::has_four(g, p) <==> four_anywhere(g, p),
{
    if board::has_four(g, p) {
        let (r, c, d) = choose|r: int, c: int, d: int|
            board::is_start(r, c, d) && #[trigger] board::is_run(g, p, r, c, d);
        let (dr, dc) = way_of(d);
        lemma_run_is_four(g, p, r, c, d);
        assert(four_from(g, p, r, c, dr, dc) && is_way(dr, dc));
    }
    if four_anywhere(g, p) {
        let (r, c, dr, dc) = choose|r: int, c: int, dr: int, dc: int|
            is_way(dr, dc) && #[trigger] four_from(g, p, r, c, dr, dc);
        let back = dr < 0 || (dr == 0 && dc < 0);
        let (r1, c1, dr1, dc1) = if back {
            (r + 3 * dr, c + 3 * dc, -dr, -dc)
        } else {
            (r, c, dr, dc)
        };
        assert(four_from(g, p, r1, c1, dr1, dc1));
        let d = way_rank(dr1, dc1);
        lemma_run_is_four(g, p, r1, c1, d);
        assert(board::is_start(r1, c1, d));
        assert(board::is_run(g, p, r1, c1, d));
    }
}

spec fn way_of(d: int) -> (int, int) {
    if d == 0 {
        (0, 1)
    } else if d == 1 {
        (1, 0)
    } else if d == 2 {
        (1, 1)
    } else {
        (1, -1)
    }
}

proof fn lemma_run_is_four(g: Seq<Seq<u8>>, p: u8, r: int, c: int, d: int)
    requires
        0 <= d < 4,
    ensures
        board::is_run(g, p, r, c, d) <==> four_from(g, p, r, c, way_of(d).0, way_of(d).1),
{
    let (dr, dc) = way_of(d);
    assert(board::step_from(r, c, d, 0) == (r, c));
    assert(board::step_from(r, c, d, 1) == (r + dr, c + dc));
    assert(board::step_from(r, c, d, 2) == (r + 2 * dr, c + 2 * dc));
    assert(board::step_from(r, c, d, 3) == (r + 3 * dr, c + 3 * dc));
    if board::is_run(g, p, r, c, d) {
        assert(board::step_holds(g, p, r, c, d, 0));
        assert(board::step_holds(g, p, r, c, d, 1));
        assert(board::step_holds(g, p, r, c, d, 2));
        assert(board::step_holds(g, p, r, c, d, 3));
    }
    if four_from(g, p, r, c, dr, dc) {
        assert forall|i: int| 0 <= i < 4 implies #[trigger] board::step_holds(
            g,
            p,
            r,
            c,
            d,
            i,
        ) by {
            assert(i == 0 || i == 1 || i == 2 || i == 3);
        }
    }
}

/// The line on display is four cells of `p` in an unbroken line, rightwards or downwards, and
/// of all such lines the one that starts first: by row, then by column, then rightwards before
/// down before down right before down left. There is a line exactly where there is a four.
pub proof fn law_line_on_display(g: Seq<Seq<u8>>, p: u8) -> (way: (int, int))
    ensures
        board::first_four(g, p) is Some <==> four_anywhere(g, p),
        board::first_four(g, p) matches Some(l) ==> {
            let (dr, dc) = way;
            let (r, c) = l[0];
            &&& l.len() == 4
            &&& (dr == 0 && dc == 1) || (dr == 1 && -1 <= dc <= 1)
            &&& four_from(g, p, r, c, dr, dc)
            &&& l[1] == (r + dr, c + dc)
            &&& l[2] == (r + 2 * dr, c + 2 * dc)
            &&& l[3] == (r + 3 * dr, c + 3 * dc)
            &&& forall|r2: int, c2: int, dr2: int, dc2: int|
                ((dr2 == 0 && dc2 == 1) || (dr2 == 1 && -1 <= dc2 <= 1)) && #[trigger] four_from(
                    g,
                    p,
                    r2,
                    c2,
                    dr2,
                    dc2,
                ) ==> r < r2 || (r == r2 && (c < c2 || (c == c2 && way_rank(dr, dc) <= way_rank(
                    dr2,
                    dc2,
                ))))
        },
{
    law_four_means_four(g, p);
    if board::has_four(g, p) {
        let (r, c, d) = board::lemma_first_four_exists(g, p);
        let (dr, dc) = way_of(d);
        lemma_run_is_four(g, p, r, c, d);
        assert forall|r2: int, c2: int, dr2: int, dc2: int|
            ((dr2 == 0 && dc2 == 1) || (dr2 == 1 && -1 <= dc2 <= 1)) && #[trigger] four_from(
                g,
                p,
                r2,
                c2,
                dr2,
                dc2,
            ) implies r < r2 || (r == r2 && (c < c2 || (c == c2 && way_rank(dr, dc) <= way_rank(
            dr2,
            dc2,
        )))) by {
            let d2 = way_rank(dr2, dc2);
            lemma_run_is_four(g, p, r2, c2, d2);
            assert(board::is_run(g, p, r2, c2, d2));
            assert(board::is_start(r2, c2, d2));
        }
        (dr, dc)
    } else {
        (0, 0)
    }
}

/// A piece comes to rest on the lowest empty cell of its column, and in no cell of a full one.
pub proof fn law_where_a_piece_lands(g: Seq<Seq<u8>>, col: int)
    ensures
        board::landing(g, col) matches Some(row) ==> 0 <= row < 6 && g[row][col] == 0 && forall|
            r: int,
        |
            row < r < 6 ==> (#[trigger] g[r])[col] != 0,
        board::landing(g, col) is None <==> forall|r: int|
            0 <= r < 6 ==> (#[trigger] g[r])[col] != 0,
{
    board::lemma_landing_exists(g, col);
}

/// A board counts as full exactly when its top row has no empty cell.
pub proof fn law_full_means_top_row(g: Seq<Seq<u8>>)
    ensures
        board::top_full(g) <==> forall|c: int| 0 <= c < 7 ==> #[trigger] g[0][c] != 0,
{
}

/// A move of a player goes by the column that was asked for. On their turn it is carried out
/// exactly when that column has an empty cell: one piece of theirs comes to rest on the lowest
/// one, and no other cell changes. Else it is turned down, and nothing changes.
pub proof fn law_move_of_a_player(s: GameView, sid: Seq<char>, idx: int, col: int) -> (row: int)
    requires
        s.valid(),
        0 <= idx < 2,
        0 <= col < 7,
        s.players[idx] is Some,
        s.players[idx]->0.sid == sid,
    ensures
        ({
            let o = server::move_outcome(s, Some(sid), col);
            let turn = s.phase == Phase::Playing && s.turn == idx + 1;
            let room = exists|r: int| 0 <= r < 6 && (#[trigger] s.board[r])[col] == 0;
            &&& turn && room ==> {
                &&& o.status == 200
                &&& o.text == ""@
                &&& 0 <= row < 6
                &&& s.board[row][col] == 0
                &&& forall|r: int| row < r < 6 ==> (#[trigger] s.board[r])[col] != 0
                &&& o.game.board.len() == 6
                &&& forall|r: int| 0 <= r < 6 ==> (#[trigger] o.game.board[r]).len() == 7
                &&& o.game.board[row][col] == idx + 1
                &&& forall|r: int, c: int|
                    0 <= r < 6 && 0 <= c < 7 && !(r == row && c == col)
                        ==> #[trigger] o.game.board[r][c] == s.board[r][c]
                &&& o.game.last_move == Some((row, col))
            }
            &&& turn && !room ==> o.status == 409 && o.text == "column full"@ && o.game == s
            &&& !turn ==> o.status == 409 && o.text == "not your turn"@ && o.game == s
        }),
{
    let row = board::landing(s.board, col)->0;
    lemma_seat(s, sid, idx);
    law_where_a_piece_lands(s.board, col);
    if board::landing(s.board, col) is Some {
        board::lemma_placed(s.board, row, col, (idx + 1) as u8);
    }
    row
}

/// A session at the table is found in its seat.
proof fn lemma_seat(s: GameView, sid: Seq<char>, idx: int)
    requires
        s.valid(),
        0 <= idx < 2,
        s.players[idx] is Some,
        s.players[idx]->0.sid == sid,
    ensures
        s.seat_of(sid) == Some(idx),
{
}

/// What a move that is carried out decides. Four of the player in a line win and are counted
/// for them alone; a board without an empty cell, else, is a draw and counted as such; else the
/// game goes on and it is the other player's turn. Nothing else changes.
pub proof fn law_move_decides(s: GameView, sid: Seq<char>, idx: int, col: int)
    requires
        s.valid(),
        0 <= idx < 2,
        0 <= col < 7,
        s.players[idx] is Some,
        s.players[idx]->0.sid == sid,
        s.phase == Phase::Playing,
        s.turn == idx + 1,
        exists|r: int| 0 <= r < 6 && (#[trigger] s.board[r])[col] == 0,
    ensures
        ({
            let t = server::move_outcome(s, Some(sid), col).game;
            let four = four_anywhere(t.board, (idx + 1) as u8);
            let full = forall|r: int, c: int|
                0 <= r < 6 && 0 <= c < 7 ==> #[trigger] t.board[r][c] != 0;
            &&& t.players == s.players
            &&& t.starter == s.starter
            &&& t.rematch == s.rematch
            &&& t.grace_end == s.grace_end
            &&& t.grace_gen == s.grace_gen
            &&& t.next_conn_id == s.next_conn_id
            &&& t.score.len() == 2
            &&& t.score[1 - idx] == s.score[1 - idx]
            &&& four ==> {
                &&& t.phase == Phase::Finished
                &&& t.winner == idx + 1
                &&& t.win_reason == WinReason::Connect4
                &&& t.win_line is Some
                &&& t.win_line == board::first_four(t.board, (idx + 1) as u8)
                &&& t.score[idx] == s.score[idx] + 1
                &&& t.draws == s.draws
                &&& t.turn == s.turn
            }
            &&& !four && full ==> {
                &&& t.phase == Phase::Finished
                &&& t.winner == 0
                &&& t.win_reason == WinReason::Draw
                &&& t.win_line is None
                &&& t.score[idx] == s.score[idx]
                &&& t.draws == s.draws + 1
                &&& t.turn == s.turn
            }
            &&& !four && !full ==> {
                &&& t.phase == Phase::Playing
                &&& t.winner == 0
                &&& t.win_reason == WinReason::Undecided
                &&& t.win_line is None
                &&& t.score[idx] == s.score[idx]
                &&& t.draws == s.draws
                &&& t.turn == 2 - idx
            }
        }),
{
    lemma_seat(s, sid, idx);
    law_where_a_piece_lands(s.board, col);
    let t = server::move_outcome(s, Some(sid), col).game;
    laws::law_moved_valid(s, idx, col);
    law_four_means_four(t.board, (idx + 1) as u8);
    law_line_on_display(t.board, (idx + 1) as u8);
    if board::top_full(t.board) {
        board::lemma_full_grid(t.board);
    } else {
        let c = choose|c: int| 0 <= c < 7 && #[trigger] t.board[0][c] == 0;
        assert(t.board[0][c] == 0);
    }
}

/// A move without a session, into no column of the board, or of someone who has no seat is
/// turned down, for the first of these reasons that holds, and changes nothing.
pub proof fn law_move_of_nobody(s: GameView, session: Option<Seq<char>>, col: int)
    requires
        s.valid(),
        col >= 0,
    ensures
        ({
            let o = server::move_outcome(s, session, col);
            &&& session is None ==> o.status == 400 && o.text == "missing session"@ && o.game == s
            &&& session is Some && col >= 7 ==> o.status == 400 && o.text == "bad move"@ && o.game
                == s
            &&& session is Some && col < 7 && (forall|i: int|
                0 <= i < 2 && (#[trigger] s.players[i]) is Some ==> s.players[i]->0.sid
                    != session->0) ==> o.status == 409 && o.text == "not your turn"@ && o.game == s
        }),
{
    if session is Some && s.seat_of(session->0) is Some {
        let i = s.seat_of(session->0)->0;
        assert(s.players[i] is Some && s.players[i]->0.sid == session->0);
    }
}

/// A request to begin is granted exactly to someone at a table that is ready. The game is then
/// on, the starter is to move, and nothing else changes; else nothing changes at all.
pub proof fn law_start_request(s: GameView, session: Option<Seq<char>>)
    requires
        s.valid(),
    ensures
        ({
            let o = server::start_outcome(s, session);
            let known = session is Some && exists|i: int|
                0 <= i < 2 && (#[trigger] s.players[i]) is Some && s.players[i]->0.sid
                    == session->0;
            let t = o.game;
            &&& session is None ==> o.status == 400 && o.text == "missing session"@ && t == s
            &&& session is Some && !(known && s.phase == Phase::Ready) ==> o.status == 409 && o.text
                == "cannot start"@ && t == s
            &&& known && s.phase == Phase::Ready ==> {
                &&& o.status == 200
                &&& o.text == ""@
                &&& t.phase == Phase::Playing
                &&& t.turn == s.starter
                &&& t.turn == 1
                &&& t.players == s.players
                &&& t.board == s.board
                &&& t.starter == s.starter
                &&& t.winner == s.winner
                &&& t.win_reason == s.win_reason
                &&& t.win_line == s.win_line
                &&& t.last_move == s.last_move
                &&& t.rematch == s.rematch
                &&& t.score == s.score
                &&& t.draws == s.draws
                &&& t.grace_end == s.grace_end
                &&& t.grace_gen == s.grace_gen
                &&& t.next_conn_id == s.next_conn_id
            }
        }),
{
    if session is Some && s.seat_of(session->0) is Some {
        let i = s.seat_of(session->0)->0;
        assert(s.players[i] is Some && s.players[i]->0.sid == session->0);
    }
}

/// A request for another game is granted exactly to someone at a table where a game is over
/// and the other seat is taken, however the game ended. Where the other has asked before, a new
/// game begins on an empty board with the other starter, and the score stays; else the wish is
/// noted, and nothing else changes.
pub proof fn law_rematch_of_a_player(s: GameView, sid: Seq<char>, idx: int)
    requires
        s.valid(),
        0 <= idx < 2,
        s.players[idx] is Some,
        s.players[idx]->0.sid == sid,
    ensures
        ({
            let o = server::rematch_outcome(s, Some(sid));
            let t = o.game;
            let granted = s.phase == Phase::Finished && s.players[1 - idx] is Some;
            &&& !granted ==> o.status == 409 && o.text == "cannot rematch"@ && t == s
            &&& granted ==> {
                &&& o.status == 200
                &&& o.text == ""@
                &&& t.players == s.players
                &&& t.score == s.score
                &&& t.draws == s.draws
                &&& t.grace_gen == s.grace_gen
                &&& t.next_conn_id == s.next_conn_id
                &&& t.rematch.len() == 2
            }
            &&& granted && s.rematch[1 - idx] ==> {
                &&& t.phase == Phase::Playing
                &&& t.starter == 3 - s.starter
                &&& t.turn == 3 - s.starter
                &&& t.board.len() == 6
                &&& forall|r: int| 0 <= r < 6 ==> (#[trigger] t.board[r]).len() == 7
                &&& forall|r: int, c: int|
                    0 <= r < 6 && 0 <= c < 7 ==> #[trigger] t.board[r][c] == 0
                &&& t.winner == 0
                &&& t.win_reason == WinReason::Undecided
                &&& t.win_line is None
                &&& t.last_move is None
                &&& !t.rematch[0] && !t.rematch[1]
                &&& t.grace_end == seq![0int, 0int]
            }
            &&& granted && !s.rematch[1 - idx] ==> {
                &&& t.phase == Phase::Finished
                &&& t.rematch[idx] && !t.rematch[1 - idx]
                &&& t.starter == s.starter
                &&& t.turn == s.turn
                &&& t.board == s.board
                &&& t.winner == s.winner
                &&& t.win_reason == s.win_reason
                &&& t.win_line == s.win_line
                &&& t.last_move == s.last_move
                &&& t.grace_end == s.grace_end
            }
        }),
{
    lemma_seat(s, sid, idx);
}

/// A request for another game without a session, or of someone who has no seat, is turned down
/// and changes nothing.
pub proof fn law_rematch_of_nobody(s: GameView, session: Option<Seq<char>>)
    requires
        s.valid(),
    ensures
        ({
            let o = server::rematch_outcome(s, session);
            &&& session is None ==> o.status == 400 && o.text == "missing session"@ && o.game == s
            &&& session is Some && (forall|i: int|
                0 <= i < 2 && (#[trigger] s.players[i]) is Some ==> s.players[i]->0.sid
                    != session->0) ==> o.status == 409 && o.text == "cannot rematch"@ && o.game
                == s
        }),
{
    if session is Some && s.seat_of(session->0) is Some {
        let i = s.seat_of(session->0)->0;
        assert(s.players[i] is Some && s.players[i]->0.sid == session->0);
    }
}

/// A wish for another game begins it exactly when it is the second of two wishes, one of each.
pub proof fn law_two_wishes_begin_a_game(s: GameView, sid: Seq<char>, other: Seq<char>, idx: int)
    requires
        s.valid(),
        s.phase == Phase::Finished,
        0 <= idx < 2,
        s.players[0] is Some,
        s.players[1] is Some,
        s.players[idx]->0.sid == sid,
        s.players[1 - idx]->0.sid == other,
        !s.rematch[0],
        !s.rematch[1],
    ensures
        ({
            let once = server::rematch_outcome(s, Some(sid)).game;
            let twice = server::rematch_outcome(once, Some(sid));
            let both = server::rematch_outcome(once, Some(other));
            &&& once.phase == Phase::Finished
            &&& twice.status == 200
            &&& twice.game == once
            &&& both.status == 200
            &&& both.game.phase == Phase::Playing
            &&& both.game.starter != s.starter
            &&& both.game.turn == both.game.starter
            &&& both.game.score == s.score
            &&& both.game.draws == s.draws
        }),
{
    law_rematch_of_a_player(s, sid, idx);
    let once = server::rematch_outcome(s, Some(sid)).game;
    laws::law_rematch_valid(s, idx);
    law_rematch_of_a_player(once, sid, idx);
    law_rematch_of_a_player(once, other, 1 - idx);
    let twice = server::rematch_outcome(once, Some(sid)).game;
    assert(twice.rematch =~= once.rematch);
}

/// A player who opens another connection keeps the seat; the connection has the next number
/// and comes last, a grace period is called off, and nothing else changes.
pub proof fn law_visit_of_a_player(s: GameView, sid: Seq<char>, ip: Seq<char>, idx: int)
    requires
        s.valid(),
        0 <= idx < 2,
        s.players[idx] is Some,
        s.players[idx]->0.sid == sid,
    ensures
        ({
            let t = server::after_events(s, Some(sid), ip);
            &&& s.seat_for(sid) == Some(idx)
            &&& t.players.len() == 2
            &&& t.players[idx] is Some
            &&& t.players[idx]->0.sid == sid
            &&& t.players[idx]->0.ip == s.players[idx]->0.ip
            &&& t.players[idx]->0.conns == s.players[idx]->0.conns.push(s.next_conn_id + 1)
            &&& t.players[1 - idx] == s.players[1 - idx]
            &&& t.next_conn_id == s.next_conn_id + 1
            &&& t.grace_end.len() == 2
            &&& t.grace_gen.len() == 2
            &&& t.grace_end[idx] == 0
            &&& t.grace_end[1 - idx] == s.grace_end[1 - idx]
            &&& t.grace_gen[idx] == s.grace_gen[idx] + 1
            &&& t.grace_gen[1 - idx] == s.grace_gen[1 - idx]
            &&& t.board == s.board
            &&& t.phase == s.phase
            &&& t.turn == s.turn
            &&& t.starter == s.starter
            &&& t.winner == s.winner
            &&& t.win_reason == s.win_reason
            &&& t.win_line == s.win_line
            &&& t.last_move == s.last_move
            &&& t.rematch == s.rematch
            &&& t.score == s.score
            &&& t.draws == s.draws
        }),
{
    lemma_seat(s, sid, idx);
}

/// A new visitor gets the first free seat, with their session, their name and one connection;
/// the table is ready if the other seat is taken, else waiting; nothing of an earlier game or
/// score is left; the other player stays.
pub proof fn law_visit_of_a_newcomer(s: GameView, sid: Seq<char>, ip: Seq<char>, idx: int)
    requires
        s.valid(),
        0 <= idx < 2,
        s.players[idx] is None,
        idx == 1 ==> s.players[0] is Some,
        s.players[1 - idx] is Some ==> s.players[1 - idx]->0.sid != sid,
    ensures
        ({
            let t = server::after_events(s, Some(sid), ip);
            &&& s.seat_for(sid) == Some(idx)
            &&& t.players.len() == 2
            &&& t.players[idx] is Some
            &&& t.players[idx]->0.sid == sid
            &&& t.players[idx]->0.ip == ip
            &&& t.players[idx]->0.conns == seq![s.next_conn_id + 1]
            &&& t.players[1 - idx] == s.players[1 - idx]
            &&& t.phase == (if s.players[1 - idx] is Some {
                Phase::Ready
            } else {
                Phase::Waiting
            })
            &&& t.next_conn_id == s.next_conn_id + 1
            &&& t.grace_gen.len() == 2
            &&& t.grace_gen[idx] == s.grace_gen[idx] + 1
            &&& t.grace_gen[1 - idx] == s.grace_gen[1 - idx]
            &&& t.grace_end == seq![0int, 0int]
            &&& t.score == seq![0int, 0int]
            &&& t.draws == 0
            &&& t.starter == 1
            &&& t.turn == 0
            &&& t.winner == 0
            &&& t.win_reason == WinReason::Undecided
            &&& t.win_line is None
            &&& t.last_move is None
            &&& t.rematch == seq![false, false]
            &&& t.board.len() == 6
            &&& forall|r: int| 0 <= r < 6 ==> (#[trigger] t.board[r]).len() == 7
            &&& forall|r: int, c: int| 0 <= r < 6 && 0 <= c < 7 ==> #[trigger] t.board[r][c] == 0
        }),
{
    let t = server::after_events(s, Some(sid), ip);
    assert(t.players[idx]->0.conns =~= seq![s.next_conn_id + 1]);
    assert(t.grace_end =~= seq![0int, 0int]);
}

/// A visitor without a session, or for whom no seat is free, changes nothing.
pub proof fn law_visit_without_a_seat(s: GameView, session: Option<Seq<char>>, ip: Seq<char>)
    requires
        s.valid(),
        session is Some ==> forall|i: int|
            0 <= i < 2 ==> (#[trigger] s.players[i]) is Some && s.players[i]->0.sid != session->0,
    ensures
        server::after_events(s, session, ip) == s,
        session is Some ==> s.seat_for(session->0) is None,
{
    if session is Some {
        assert(s.players[0] is Some && s.players[0]->0.sid != session->0);
        assert(s.players[1] is Some && s.players[1]->0.sid != session->0);
    }
}

/// What a visitor is answered: without a session a refusal; with one, a seat and the number of
/// the connection that was opened there, and word of it to everyone, if the session has a seat
/// or one is free; else that the table is busy.
pub proof fn law_answer_to_a_visit(
    s: GameView,
    session: Option<Seq<char>>,
    ip: Seq<char>,
    answer: Result<Admission, Refusal>,
)
    requires
        s.valid(),
        server::admission_ok(s, server::after_events(s, session, ip), session, answer),
    ensures
        session is None <==> answer is Err,
        answer matches Err(refusal) ==> refusal.status == 400 && refusal.text@
            == "missing session"@,
        answer matches Ok(Admission::Busy) <==> session is Some && s.players[0] is Some
            && s.players[1] is Some && s.players[0]->0.sid != session->0 && s.players[1]->0.sid
            != session->0,
        answer matches Ok(Admission::Seated { idx, conn_id, deliveries }) ==> {
            let t = server::after_events(s, session, ip);
            &&& idx < 2
            &&& t.players[idx as int] is Some
            &&& t.players[idx as int]->0.sid == session->0
            &&& t.players[idx as int]->0.conns.len() > 0
            &&& t.players[idx as int]->0.conns.last() == conn_id
            &&& conn_id == s.next_conn_id + 1
            &&& s.players[idx as int] is Some ==> s.players[idx as int]->0.sid == session->0
            &&& game::deliveries(deliveries@) == t.broadcast()
        },
{
    if session is Some {
        laws::law_admitted_valid(s, session->0, ip);
    }
}

/// A connection of a player that is closed is taken out of their connections, the others stay
/// in their order, and nothing else changes.
pub proof fn law_close_takes_one_out(s: GameView, idx: int, k: int)
    requires
        s.valid(),
        0 <= idx < 2,
        s.players[idx] is Some,
        0 <= k < s.players[idx]->0.conns.len(),
    ensures
        ({
            let conns = s.players[idx]->0.conns;
            let t = s.disconnected(idx, conns[k]);
            &&& t.players.len() == 2
            &&& t.players[idx] is Some
            &&& t.players[idx]->0.sid == s.players[idx]->0.sid
            &&& t.players[idx]->0.ip == s.players[idx]->0.ip
            &&& t.players[idx]->0.conns == conns.take(k) + conns.skip(k + 1)
            &&& t.players[1 - idx] == s.players[1 - idx]
            &&& t.board == s.board
            &&& t.phase == s.phase
            &&& t.turn == s.turn
            &&& t.starter == s.starter
            &&& t.winner == s.winner
            &&& t.win_reason == s.win_reason
            &&& t.win_line == s.win_line
            &&& t.last_move == s.last_move
            &&& t.rematch == s.rematch
            &&& t.score == s.score
            &&& t.draws == s.draws
            &&& t.grace_end == s.grace_end
            &&& t.grace_gen == s.grace_gen
            &&& t.next_conn_id == s.next_conn_id
        }),
{
    lemma_take_out(s.players[idx]->0.conns, k);
}

proof fn lemma_take_out(conns: Seq<int>, k: int)
    requires
        conns.no_duplicates(),
        0 <= k < conns.len(),
    ensures
        model::without(conns, conns[k]) == conns.take(k) + conns.skip(k + 1),
    decreases conns.len(),
{
    reveal(Seq::filter);
    let id = conns[k];
    let init = conns.drop_last();
    if k == conns.len() - 1 {
        assert(!init.contains(id));
        laws::lemma_without_other(init, id);
        assert(conns.take(k) + conns.skip(k + 1) =~= init);
    } else {
        assert(init[k] == id);
        lemma_take_out(init, k);
        assert(conns.last() != id);
        assert(model::without(conns, id) == model::without(init, id).push(conns.last()));
        assert(conns.take(k) + conns.skip(k + 1) =~= (init.take(k) + init.skip(k + 1)).push(
            conns.last(),
        ));
    }
}

/// The close of a connection that is not one of the player in the seat, or at a free seat,
/// changes nothing.
pub proof fn law_close_of_another(s: GameView, idx: int, id: int)
    requires
        s.valid(),
        0 <= idx < 2,
        s.players[idx] is Some ==> forall|k: int|
            0 <= k < s.players[idx]->0.conns.len() ==> #[trigger] s.players[idx]->0.conns[k] != id,
    ensures
        s.disconnected(idx, id) == s,
{
    laws::law_foreign_close(s, idx, id);
}

/// A lost connection frees the seat of a player who has no other, in every phase but during a
/// game; then the table waits, nothing of a game or a score is left, and the other player
/// stays. Else it changes nothing.
pub proof fn law_loss_frees_the_seat(s: GameView, idx: int)
    requires
        s.valid(),
        0 <= idx < 2,
    ensures
        ({
            let t = s.loss_noticed(idx);
            let gone = s.players[idx] is Some && s.players[idx]->0.conns.len() == 0 && s.phase
                != Phase::Playing;
            &&& !gone ==> t == s
            &&& gone ==> {
                &&& t.players.len() == 2
                &&& t.players[idx] is None
                &&& t.players[1 - idx] == s.players[1 - idx]
                &&& t.phase == Phase::Waiting
                &&& t.turn == 0
                &&& t.starter == 1
                &&& t.winner == 0
                &&& t.win_reason == WinReason::Undecided
                &&& t.win_line is None
                &&& t.last_move is None
                &&& t.rematch == seq![false, false]
                &&& t.score == seq![0int, 0int]
                &&& t.draws == 0
                &&& t.grace_end == seq![0int, 0int]
                &&& t.grace_gen == s.grace_gen
                &&& t.next_conn_id == s.next_conn_id
                &&& t.board.len() == 6
                &&& forall|r: int| 0 <= r < 6 ==> (#[trigger] t.board[r]).len() == 7
                &&& forall|r: int, c: int|
                    0 <= r < 6 && 0 <= c < 7 ==> #[trigger] t.board[r][c] == 0
            }
        }),
{
}

/// A seat that a lost connection freed goes to whoever comes next, who waits for an opponent
/// if there is none.
pub proof fn law_freed_seat_is_given_again(s: GameView, idx: int, sid: Seq<char>, ip: Seq<char>)
    requires
        s.valid(),
        0 <= idx < 2,
        s.phase != Phase::Playing,
        s.players[idx] is Some,
        s.players[idx]->0.conns.len() == 0,
        s.players[1 - idx] is Some ==> s.players[1 - idx]->0.sid != sid,
    ensures
        ({
            let t = server::after_events(s.loss_noticed(idx), Some(sid), ip);
            let seat = if s.players[1 - idx] is Some {
                idx
            } else {
                0
            };
            &&& t.players[seat] is Some
            &&& t.players[seat]->0.sid == sid
            &&& t.players[seat]->0.ip == ip
            &&& t.phase == (if s.players[1 - idx] is Some {
                Phase::Ready
            } else {
                Phase::Waiting
            })
        }),
{
    let u = s.loss_noticed(idx);
    law_loss_frees_the_seat(s, idx);
    laws::law_loss_noticed_valid(s, idx);
    let seat = if s.players[1 - idx] is Some {
        idx
    } else {
        0
    };
    law_visit_of_a_newcomer(u, sid, ip, seat);
}

/// A grace period that begins is given the next number of its seat and the deadline, and
/// changes nothing else.
pub proof fn law_grace_begins(s: GameView, idx: int, until: int)
    requires
        s.valid(),
        0 <= idx < 2,
    ensures
        ({
            let t = s.grace_begun(idx, until);
            &&& t.grace_end.len() == 2
            &&& t.grace_gen.len() == 2
            &&& t.grace_end[idx] == until
            &&& t.grace_end[1 - idx] == s.grace_end[1 - idx]
            &&& t.grace_gen[idx] == s.grace_gen[idx] + 1
            &&& t.grace_gen[1 - idx] == s.grace_gen[1 - idx]
            &&& t.players == s.players
            &&& t.board == s.board
            &&& t.phase == s.phase
            &&& t.turn == s.turn
            &&& t.starter == s.starter
            &&& t.winner == s.winner
            &&& t.win_reason == s.win_reason
            &&& t.win_line == s.win_line
            &&& t.last_move == s.last_move
            &&& t.rematch == s.rematch
            &&& t.score == s.score
            &&& t.draws == s.draws
            &&& t.next_conn_id == s.next_conn_id
        }),
{
}

/// The end of a grace period counts exactly if it is the last one that began for the seat and
/// the player has not come back. It changes nothing else.
pub proof fn law_which_grace_counts(s: GameView, idx: int, gen: int)
    requires
        s.valid(),
        0 <= idx < 2,
    ensures
        s.grace_counts(idx, gen) <==> s.grace_gen[idx] == gen && s.players[idx] is Some
            && s.players[idx]->0.conns.len() == 0,
        !(s.grace_gen[idx] == gen && s.players[idx] is Some && s.players[idx]->0.conns.len() == 0)
            ==> s.grace_over(idx, gen) == s,
{
}

/// A game lost by staying away is counted once, as a win of the other player and as no draw.
/// The seat is free, the other player stays, and so does the board.
pub proof fn law_forfeit_counts_once(s: GameView, idx: int)
    requires
        s.valid(),
        0 <= idx < 2,
        s.phase == Phase::Playing,
        s.players[idx] is Some,
        s.players[idx]->0.conns.len() == 0,
    ensures
        ({
            let t = s.grace_over(idx, s.grace_gen[idx]);
            &&& t.draws == s.draws
            &&& t.score.len() == 2
            &&& t.score[0] + t.score[1] + t.draws == s.score[0] + s.score[1] + s.draws + 1
            &&& t.score[1 - idx] == s.score[1 - idx] + 1
            &&& t.score[idx] == s.score[idx]
            &&& t.phase == Phase::Finished
            &&& t.winner == 2 - idx
            &&& t.win_reason == WinReason::Forfeit
            &&& t.win_line is None
            &&& t.players.len() == 2
            &&& t.players[idx] is None
            &&& t.players[1 - idx] == s.players[1 - idx]
            &&& t.rematch == seq![false, false]
            &&& t.grace_end == seq![0int, 0int]
            &&& t.grace_gen == s.grace_gen
            &&& t.board == s.board
            &&& t.last_move == s.last_move
            &&& t.turn == s.turn
            &&& t.starter == s.starter
            &&& t.next_conn_id == s.next_conn_id
        }),
{
}

/// A grace period that ends after the game does what a loss noticed then does.
pub proof fn law_grace_after_the_game(s: GameView, idx: int)
    requires
        s.valid(),
        0 <= idx < 2,
        s.phase != Phase::Playing,
        s.players[idx] is Some,
        s.players[idx]->0.conns.len() == 0,
    ensures
        s.grace_over(idx, s.grace_gen[idx]) == s.loss_noticed(idx),
        s.grace_over(idx, s.grace_gen[idx]).players[idx] is None,
        s.grace_over(idx, s.grace_gen[idx]).score == seq![0int, 0int],
        s.grace_over(idx, s.grace_gen[idx]).draws == 0,
{
    law_loss_frees_the_seat(s, idx);
}

/// What a player reads in a message is what the table shows, from their side.
pub proof fn law_message_shows_the_table(s: GameView, idx: int, msg: StateMsg)
    requires
        s.valid(),
        0 <= idx < 2,
        s.players[idx] is Some,
        msg@ == s.state_for(idx),
    ensures
        msg.you == idx + 1,
        s.phase == Phase::Waiting ==> msg.phase@ == "waiting"@,
        s.phase == Phase::Ready ==> msg.phase@ == "ready"@,
        s.phase == Phase::Playing ==> msg.phase@ == "playing"@,
        s.phase == Phase::Finished ==> msg.phase@ == "finished"@,
        forall|r: int, c: int|
            0 <= r < 6 && 0 <= c < 7 ==> #[trigger] msg.board[r][c] == s.board[r][c],
        msg.turn == s.turn,
        msg.winner == s.winner,
        s.win_reason == WinReason::Undecided ==> msg.win_reason@ == ""@,
        s.win_reason == WinReason::Connect4 ==> msg.win_reason@ == "connect4"@,
        s.win_reason == WinReason::Draw ==> msg.win_reason@ == "draw"@,
        s.win_reason == WinReason::Forfeit ==> msg.win_reason@ == "forfeit"@,
        msg.win_line is Some <==> s.win_line is Some,
        msg.win_line matches Some(line) ==> forall|i: int|
            0 <= i < 4 ==> (#[trigger] line[i])[0] == s.win_line->0[i].0 && line[i][1]
                == s.win_line->0[i].1,
        msg.last_move is Some <==> s.last_move is Some,
        msg.last_move matches Some(m) ==> m[0] == (s.last_move->0).0 && m[1] == (s.last_move->0).1,
        msg.your_ip@ == s.players[idx]->0.ip,
        s.players[1 - idx] is Some ==> msg.opp_ip@ == s.players[1 - idx]->0.ip,
        s.players[1 - idx] is None ==> msg.opp_ip@ == ""@,
        msg.opp_online <==> s.players[1 - idx] is Some && s.players[1 - idx]->0.conns.len() > 0,
        msg.rematch_you == s.rematch[idx],
        msg.rematch_opp == s.rematch[1 - idx],
        msg.score_you == s.score[idx],
        msg.score_opp == s.score[1 - idx],
        msg.draws == s.draws,
        s.players[1 - idx] is Some ==> msg.grace_end == s.grace_end[1 - idx],
        s.players[1 - idx] is None ==> msg.grace_end == 0,
{
    assert forall|r: int, c: int| 0 <= r < 6 && 0 <= c < 7 implies #[trigger] msg.board[r][c]
        == s.board[r][c] by {
        assert(msg@.board[r] == msg.board[r]@);
    }
    if let Some(line) = msg.win_line {
        let shown = msg@.win_line->0;
        assert(shown == s.win_line->0);
        assert forall|i: int| 0 <= i < 4 implies (#[trigger] line[i])[0] == s.win_line->0[i].0
            && line[i][1] == s.win_line->0[i].1 by {
            assert(shown[i] == (line[i][0] as int, line[i][1] as int));
        }
    }
}

/// Every player is sent exactly one message, on each of their connections and no other, and
/// it is about the table as they see it.
pub proof fn law_who_is_sent_what(s: GameView, list: Seq<Delivery>, idx: int) -> (k: int)
    requires
        s.valid(),
        game::deliveries(list) == s.broadcast(),
        0 <= idx < 2,
    ensures
        list.len() == (if s.players[0] is Some {
            1int
        } else {
            0int
        }) + (if s.players[1] is Some {
            1int
        } else {
            0int
        }),
        k == (if idx == 1 && s.players[0] is Some {
            1int
        } else {
            0int
        }),
        s.players[idx] is Some ==> {
            &&& 0 <= k < list.len()
            &&& list[k].state@ == s.state_for(idx)
            &&& list[k].state.you == idx + 1
            &&& list[k].conns@.len() == s.players[idx]->0.conns.len()
            &&& forall|i: int|
                0 <= i < list[k].conns@.len() ==> #[trigger] list[k].conns@[i]
                    == s.players[idx]->0.conns[i]
        },
{
    let k = if idx == 1 && s.players[0] is Some {
        1int
    } else {
        0int
    };
    assert(game::deliveries(list).len() == list.len());
    if s.players[idx] is Some {
        assert(game::deliveries(list)[k] == list[k]@);
        assert(s.broadcast()[k].conns == s.players[idx]->0.conns);
        assert(game::numbers(list[k].conns@) == s.players[idx]->0.conns);
        assert forall|i: int| 0 <= i < list[k].conns@.len() implies #[trigger] list[k].conns@[i]
            == s.players[idx]->0.conns[i] by {
            assert(game::numbers(list[k].conns@)[i] == list[k].conns@[i]);
        }
    }
    k
}

/// A reply carries the status and the text of the outcome; where the request was carried out,
/// everyone is sent word of the table it made, else nobody is sent anything.
pub proof fn law_what_is_replied(o: Outcome, reply: Reply)
    requires
        o.answered_by(reply),
    ensures
        reply.status == o.status,
        reply.text@ == o.text,
        reply.status == 200 ==> game::deliveries(reply.deliveries@) == o.game.broadcast(),
        reply.status != 200 ==> reply.deliveries@.len() == 0,
{
    if reply.status != 200 {
        assert(game::deliveries(reply.deliveries@).len() == reply.deliveries@.len());
    }
}

/// Whoever gets four in a line is announced as the winner in every message of the reply, with
/// that line and the point counted.
pub proof fn law_winner_is_announced(
    s: GameView,
    sid: Seq<char>,
    idx: int,
    col: int,
    reply: Reply,
    k: int,
)
    requires
        s.valid(),
        0 <= idx < 2,
        0 <= col < 7,
        s.players[idx] is Some,
        s.players[idx]->0.sid == sid,
        s.phase == Phase::Playing,
        s.turn == idx + 1,
        exists|r: int| 0 <= r < 6 && (#[trigger] s.board[r])[col] == 0,
        four_anywhere(server::move_outcome(s, Some(sid), col).game.board, (idx + 1) as u8),
        server::move_outcome(s, Some(sid), col).answered_by(reply),
        0 <= k < reply.deliveries@.len(),
    ensures
        reply.deliveries@.len() == 2,
        reply.deliveries@[k].state.winner == idx + 1,
        reply.deliveries@[k].state.phase@ == "finished"@,
        reply.deliveries@[k].state.win_reason@ == "connect4"@,
        reply.deliveries@[k].state.win_line is Some,
        reply.deliveries@[k].state.you == k + 1,
        k == idx ==> reply.deliveries@[k].state.score_you == s.score[idx] + 1,
        k != idx ==> reply.deliveries@[k].state.score_opp == s.score[idx] + 1,
{
    let o = server::move_outcome(s, Some(sid), col);
    lemma_seat(s, sid, idx);
    law_where_a_piece_lands(s.board, col);
    law_move_of_a_player(s, sid, idx, col);
    law_move_decides(s, sid, idx, col);
    laws::law_moved_valid(s, idx, col);
    law_what_is_replied(o, reply);
    law_who_is_sent_what(o.game, reply.deliveries@, 0);
    law_who_is_sent_what(o.game, reply.deliveries@, k);
    law_message_shows_the_table(o.game, k, reply.deliveries@[k].state);
}

/// Counts are held in 32 bits for games and in 64 bits for grace periods and connections; no
/// smaller number is too large.
pub proof fn law_what_fits(s: GameView)
    ensures
        s.fits() <==> s.score[0] <= 0xffff_ffff && s.score[1] <= 0xffff_ffff && s.draws
            <= 0xffff_ffff && s.grace_gen[0] <= 0xffff_ffff_ffff_ffff && s.grace_gen[1]
            <= 0xffff_ffff_ffff_ffff && s.next_conn_id <= 0xffff_ffff_ffff_ffff,
{
}

/// Whether a visitor can be counted does not depend on the name on display.
pub proof fn law_name_takes_no_room(s: GameView, session: Option<Seq<char>>, ip: Seq<char>)
    requires
        s.valid(),
    ensures
        server::events_fit(s, session) <==> server::after_events(s, session, ip).fits(),
{
}

/// The seat of a session is the one that it holds, if any.
pub proof fn law_seat_of_a_session(s: GameView, sid: Seq<char>)
    requires
        s.valid(),
    ensures
        forall|i: int|
            0 <= i < 2 ==> (s.seat_of(sid) == Some(i) <==> (#[trigger] s.players[i]) is Some
                && s.players[i]->0.sid == sid),
        s.seat_of(sid) matches Some(i) ==> 0 <= i < 2,
{
}

/// What always holds of a table, in plain terms.
pub proof fn law_what_always_holds(s: GameView)
    requires
        s.valid(),
    ensures
        s.phase == Phase::Playing || s.phase == Phase::Ready ==> s.players[0] is Some
            && s.players[1] is Some,
        s.phase == Phase::Waiting ==> s.players[0] is None || s.players[1] is None,
        s.players[0] is Some && s.players[1] is Some ==> s.players[0]->0.sid
            != s.players[1]->0.sid,
        s.phase != Phase::Finished ==> s.winner == 0 && s.win_line is None,
        s.phase == Phase::Playing ==> !four_anywhere(s.board, 1) && !four_anywhere(s.board, 2),
        s.phase == Phase::Finished && s.win_reason == WinReason::Connect4 ==> four_anywhere(
            s.board,
            s.winner,
        ),
        s.phase == Phase::Finished && s.win_reason == WinReason::Draw ==> !four_anywhere(
            s.board,
            1,
        ) && !four_anywhere(s.board, 2),
        !(s.rematch[0] && s.rematch[1]),
        forall|r: int, c: int|
            0 <= r < 5 && 0 <= c < 7 && #[trigger] s.board[r][c] != 0 ==> s.board[r + 1][c] != 0,
        forall|r: int, c: int| 0 <= r < 6 && 0 <= c < 7 ==> #[trigger] s.board[r][c] <= 2,
{
    law_four_means_four(s.board, 1);
    law_four_means_four(s.board, 2);
}

/// A count of seconds and its time stamp differ by a whole number of times that the clock has
/// gone round, and the stamp is one of 64 bits.
pub proof fn law_seconds_as_stamp(secs: u64)
    ensures
        i64::MIN <= clock::signed_secs(secs) <= i64::MAX,
        (secs - clock::signed_secs(secs)) % 0x1_0000_0000_0000_0000 == 0,
        secs <= i64::MAX ==> clock::signed_secs(secs) == secs,
{
}

/// A deadline exists exactly where the sum is a time stamp.
pub proof fn law_deadline_is_a_stamp(now: i64, secs: u64)
    ensures
        secs <= i64::MAX ==> (clock::has_deadline(now, secs) <==> now + secs <= i64::MAX),
        clock::has_deadline(now, secs) <==> i64::MIN <= now + clock::signed_secs(secs) <= i64::MAX,
{
}

/// A time stamp of a reading counts the seconds shown; there is none exactly for a reading
/// before the epoch.
pub proof fn law_stamp_of_a_reading(
    reading: Result<Duration, SystemTimeError>,
    stamp: Option<i64>,
)
    requires
        clock::stamps(reading, stamp),
    ensures
        stamp is Some <==> reading is Ok,
        reading matches Ok(elapsed) ==> (clock::whole_secs(elapsed) - stamp->0)
            % 0x1_0000_0000_0000_0000 == 0,
{
}

/// What the steps of the table come to, in terms of the requests and events they belong to.
pub proof fn law_steps_and_requests(
    s: GameView,
    sid: Seq<char>,
    ip: Seq<char>,
    idx: int,
    col: int,
)
    requires
        s.valid(),
        0 <= idx < 2,
        0 <= col < 7,
    ensures
        s.seat_of(sid) == Some(idx) && s.may_move(idx) && board::landing(s.board, col) is Some
            ==> s.moved(idx, col) == server::move_outcome(s, Some(sid), col).game,
        s.seat_of(sid) == Some(idx) && s.phase == Phase::Ready ==> s.started()
            == server::start_outcome(s, Some(sid)).game,
        s.seat_of(sid) == Some(idx) && s.may_rematch(idx) ==> s.rematch_asked(idx)
            == server::rematch_outcome(s, Some(sid)).game,
        s.seat_of(sid) == Some(idx) ==> s.connected(idx) == server::after_events(
            s,
            Some(sid),
            ip,
        ),
        s.seat_of(sid) is None && s.free_seat() == Some(idx) ==> s.seated(idx, sid, ip).connected(
            idx,
        ) == server::after_events(s, Some(sid), ip),
        s.away(idx) && s.phase == Phase::Playing ==> s.forfeited(idx) == s.grace_over(
            idx,
            s.grace_gen[idx],
        ),
        s.away(idx) && s.phase != Phase::Playing ==> s.vacated(idx) == s.loss_noticed(idx),
{
}

/// What is asked about a seat, in plain terms.
pub proof fn law_what_is_asked(s: GameView, idx: int)
    requires
        s.valid(),
        0 <= idx < 2,
    ensures
        s.taken(idx) <==> s.players[idx] is Some,
        s.away(idx) <==> s.players[idx] is Some && s.players[idx]->0.conns.len() == 0,
        s.may_move(idx) <==> s.phase == Phase::Playing && s.turn == idx + 1,
        s.may_rematch(idx) <==> s.phase == Phase::Finished && s.players[1 - idx] is Some,
        s.free_seat() == Some(idx) <==> s.players[idx] is None && (idx == 1 ==> s.players[0] is Some),
        s.free_seat() is None <==> s.players[0] is Some && s.players[1] is Some,
{
}

/// A seat given up takes the pair, the game and the score with it, whatever the phase.
pub proof fn law_seat_given_up(s: GameView, idx: int)
    requires
        s.valid(),
        0 <= idx < 2,
    ensures
        ({
            let t = s.vacated(idx);
            &&& t.players.len() == 2
            &&& t.players[idx] is None
            &&& t.players[1 - idx] == s.players[1 - idx]
            &&& t.phase == Phase::Waiting
            &&& t.turn == 0
            &&& t.starter == 1
            &&& t.winner == 0
            &&& t.win_reason == WinReason::Undecided
            &&& t.win_line is None
            &&& t.last_move is None
            &&& t.rematch == seq![false, false]
            &&& t.score == seq![0int, 0int]
            &&& t.draws == 0
            &&& t.grace_end == seq![0int, 0int]
            &&& t.grace_gen == s.grace_gen
            &&& t.next_conn_id == s.next_conn_id
            &&& forall|r: int, c: int| 0 <= r < 6 && 0 <= c < 7 ==> #[trigger] t.board[r][c] == 0
        }),
{
}

/// The table nobody has come to yet.
pub proof fn law_first_table()
    ensures
        ({
            let t = GameView::fresh();
            &&& t.players.len() == 2
            &&& t.players[0] is None
            &&& t.players[1] is None
            &&& t.phase == Phase::Waiting
            &&& t.turn == 0
            &&& t.starter == 1
            &&& t.winner == 0
            &&& t.win_reason == WinReason::Undecided
            &&& t.win_line is None
            &&& t.last_move is None
            &&& !t.rematch[0] && !t.rematch[1]
            &&& t.score[0] == 0 && t.score[1] == 0 && t.draws == 0
            &&& t.grace_end[0] == 0 && t.grace_end[1] == 0
            &&& t.grace_gen[0] == 0 && t.grace_gen[1] == 0
            &&& t.next_conn_id == 0
            &&& forall|r: int, c: int| 0 <= r < 6 && 0 <= c < 7 ==> #[trigger] t.board[r][c] == 0
        }),
{
}

/// The grid of an array of cells has the cells of the array, and the positions of an array of
/// pairs are the pairs.
pub proof fn law_arrays_as_they_are(cells: board::Cells, line: board::Line)
    ensures
        board::grid(cells).len() == 6,
        forall|r: int, c: int|
            0 <= r < 6 && 0 <= c < 7 ==> #[trigger] board::grid(cells)[r][c] == cells[r][c],
        board::line_cells(line).len() == 4,
        forall|i: int|
            0 <= i < 4 ==> (#[trigger] board::line_cells(line)[i]).0 == line[i][0]
                && board::line_cells(line)[i].1 == line[i][1],
{
}

/// The number that a row of digits stands for, digit by digit from the front.
pub open spec fn place_value(digits: Seq<char>) -> int
    decreases digits.len(),
{
    if digits.len() == 0 {
        0
    } else {
        (digits[0] as int - 48) * vstd::arithmetic::power::pow(10, (digits.len() - 1) as nat)
            + place_value(digits.skip(1))
    }
}

proof fn lemma_place_value_push(digits: Seq<char>, c: char)
    ensures
        place_value(digits.push(c)) == 10 * place_value(digits) + (c as int - 48),
    decreases digits.len(),
{
    let all = digits.push(c);
    if digits.len() == 0 {
        vstd::arithmetic::power::lemma_pow0(10);
        assert(all.skip(1) =~= Seq::<char>::empty());
        assert(place_value(all.skip(1)) == 0);
        assert((c as int - 48) * 1 == c as int - 48);
    } else {
        let n = (digits.len() - 1) as nat;
        let d = digits[0] as int - 48;
        let p = vstd::arithmetic::power::pow(10, n);
        lemma_place_value_push(digits.skip(1), c);
        assert(all.skip(1) =~= digits.skip(1).push(c));
        reveal(vstd::arithmetic::power::pow);
        assert(vstd::arithmetic::power::pow(10, (n + 1) as nat) == 10 * p);
        assert(d * (10 * p) == 10 * (d * p)) by (nonlinear_arith);
    }
}

proof fn lemma_place_value(digits: Seq<char>)
    ensures
        text::digits_value(digits) == place_value(digits),
    decreases digits.len(),
{
    if digits.len() > 0 {
        lemma_place_value(digits.drop_last());
        lemma_place_value_push(digits.drop_last(), digits.last());
        assert(digits.drop_last().push(digits.last()) =~= digits);
    }
}

proof fn lemma_trimmed(s: Seq<char>, n: int, c: char)
    requires
        0 <= n <= s.len(),
        n > 0 ==> s[n - 1] != c,
        forall|i: int| n <= i < s.len() ==> s[i] == c,
    ensures
        text::trimmed_end(s, c) == s.take(n),
    decreases s.len(),
{
    if n < s.len() {
        lemma_trimmed(s.drop_last(), n, c);
        assert(s.drop_last().take(n) =~= s.take(n));
    } else {
        assert(s.take(n) =~= s);
    }
}

/// How a number is read. The characters `end` at the end of the text are passed over. What is
/// left is a number if it is at least one digit, after at most one plus sign, and of 64 bits.
pub proof fn law_number_is_read(s: Seq<char>, n: int, end: char, digits: Seq<char>)
    requires
        0 <= n <= s.len(),
        n > 0 ==> s[n - 1] != end,
        forall|i: int| n <= i < s.len() ==> s[i] == end,
        n > 0 && s[0] == '+' ==> digits == s.subrange(1, n),
        !(n > 0 && s[0] == '+') ==> digits == s.subrange(0, n),
    ensures
        ({
            let number = digits.len() > 0 && (forall|i: int|
                0 <= i < digits.len() ==> 48 <= (#[trigger] digits[i]) as int <= 57)
                && place_value(digits) <= 0xffff_ffff_ffff_ffff;
            let read = text::parsed(text::trimmed_end(s, end));
            &&& read is Some <==> number
            &&& read matches Some(value) ==> value == place_value(digits)
        }),
{
    lemma_trimmed(s, n, end);
    assert(text::unsigned_part(s.take(n)) =~= digits);
    lemma_place_value(digits);
    if text::all_digits(digits) {
        text::lemma_digits_grow(digits, 0);
        assert(digits.take(0) =~= Seq::<char>::empty());
        assert forall|i: int| 0 <= i < digits.len() implies 48 <= (#[trigger] digits[i]) as int
            <= 57 by {
            assert(text::is_digit(digits[i]));
        }
    } else {
        let i = choose|i: int| 0 <= i < digits.len() && !text::is_digit(#[trigger] digits[i]);
        assert(!(48 <= digits[i] as int <= 57));
    }
}

/// How a setting for the grace period is read. The letters `s` at its end are passed over.
/// What is left is a number if it is at least one digit, after at most one plus sign, and of
/// 64 bits; that many seconds are granted. Else, and without a setting, it is a minute.
pub proof fn law_setting_is_read(s: Seq<char>, n: int, digits: Seq<char>)
    requires
        0 <= n <= s.len(),
        n > 0 ==> s[n - 1] != 's',
        forall|i: int| n <= i < s.len() ==> s[i] == 's',
        n > 0 && s[0] == '+' ==> digits == s.subrange(1, n),
        !(n > 0 && s[0] == '+') ==> digits == s.subrange(0, n),
    ensures
        clock::grace_secs(None) == 60,
        ({
            let number = digits.len() > 0 && (forall|i: int|
                0 <= i < digits.len() ==> 48 <= (#[trigger] digits[i]) as int <= 57)
                && place_value(digits) <= 0xffff_ffff_ffff_ffff;
            &&& number ==> clock::grace_secs(Some(s)) == place_value(digits)
            &&& !number ==> clock::grace_secs(Some(s)) == 60
        }),
{
    law_number_is_read(s, n, 's', digits);
}

/// Two phases, and two ways for a game to end, never share a word.
pub proof fn law_words_tell_apart(a: Phase, b: Phase, x: WinReason, y: WinReason)
    ensures
        a.spec_text() == b.spec_text() ==> a == b,
        x.spec_text() == y.spec_text() ==> x == y,
        x.spec_text().len() == 0 <==> x == WinReason::Undecided,
{
    reveal_strlit("waiting");
    reveal_strlit("ready");
    reveal_strlit("playing");
    reveal_strlit("finished");
    reveal_strlit("");
    reveal_strlit("connect4");
    reveal_strlit("draw");
    reveal_strlit("forfeit");
    assert("waiting"@[0] == 'w' && "playing"@[0] == 'p');
    assert("waiting"@.len() == 7 && "ready"@.len() == 5 && "playing"@.len() == 7);
    assert("finished"@.len() == 8);
    assert("connect4"@.len() == 8 && "draw"@.len() == 4 && "forfeit"@.len() == 7);
}

/// A number in decimal is the row of digits without leading zeros that stands for it.
pub proof fn law_decimal_text(n: nat)
    ensures
        text::decimal(n).len() > 0,
        forall|i: int|
            0 <= i < text::decimal(n).len() ==> 48 <= (#[trigger] text::decimal(n)[i]) as int <= 57,
        place_value(text::decimal(n)) == n,
        n > 0 ==> text::decimal(n)[0] as int != 48,
        n == 0 ==> text::decimal(n).len() == 1,
    decreases n,
{
    text::lemma_decimal(n);
    lemma_place_value(text::decimal(n));
    assert forall|i: int| 0 <= i < text::decimal(n).len() implies 48 <= (#[trigger] text::decimal(
        n,
    )[i]) as int <= 57 by {
        assert(text::is_digit(text::decimal(n)[i]));
    }
    if n >= 10 {
        law_decimal_text(n / 10);
    }
}

/// The session of a request with header fields is the text of the first value of `x-session`,
/// if there is one, all of it is text, and it has one to 64 characters.
pub proof fn law_session_in_headers(values: Map<Seq<char>, Seq<Seq<u8>>>)
    ensures
        ({
            let found = values.dom().contains("x-session"@);
            let bytes = values["x-session"@][0];
            let is_text = forall|i: int|
                0 <= i < bytes.len() ==> 32 <= #[trigger] bytes[i] < 127 || bytes[i] == 9;
            let good = found && is_text && 1 <= bytes.len() <= 64;
            let session = request::header_session(values);
            &&& session is Some <==> good
            &&& session matches Some(t) ==> {
                &&& t.len() == bytes.len()
                &&& forall|i: int| 0 <= i < t.len() ==> (#[trigger] t[i]) as int == bytes[i]
            }
        }),
{
    let bytes = values["x-session"@][0];
    if request::value_text(bytes) is Some {
        let t = request::value_text(bytes)->0;
        assert forall|i: int| 0 <= i < t.len() implies (#[trigger] t[i]) as u32 <= 127 by {
            assert(request::is_text_byte(bytes[i]));
        }
        assert(vstd::utf8::is_ascii_chars(t));
        vstd::utf8::is_ascii_chars_encode_utf8(t);
        assert(vstd::utf8::encode_utf8(t).len() == t.len());
        assert forall|i: int| 0 <= i < bytes.len() implies 32 <= #[trigger] bytes[i] < 127
            || bytes[i] == 9 by {
            assert(request::is_text_byte(bytes[i]));
        }
    }
}

/// The name on display is the text of the first value of `x-real-ip`, if there is one and all
/// of it is text, else the address of the peer.
pub proof fn law_name_on_display(values: Map<Seq<char>, Seq<Seq<u8>>>, peer: Seq<char>)
    ensures
        ({
            let found = values.dom().contains("x-real-ip"@);
            let bytes = values["x-real-ip"@][0];
            let is_text = forall|i: int|
                0 <= i < bytes.len() ==> 32 <= #[trigger] bytes[i] < 127 || bytes[i] == 9;
            let name = request::display_name(values, peer);
            &&& found && is_text ==> {
                &&& name.len() == bytes.len()
                &&& forall|i: int| 0 <= i < name.len() ==> (#[trigger] name[i]) as int == bytes[i]
            }
            &&& !(found && is_text) ==> name == peer
        }),
{
    let bytes = values["x-real-ip"@][0];
    if request::value_text(bytes) is Some {
        assert forall|i: int| 0 <= i < bytes.len() implies 32 <= #[trigger] bytes[i] < 127
            || bytes[i] == 9 by {
            assert(request::is_text_byte(bytes[i]));
        }
    }
}

/// The session in a query is the last value that it gives for `session`, if that has at least
/// one character and at most 64 bytes.
pub proof fn law_session_in_query(params: Seq<(Seq<char>, Seq<char>)>, k: int)
    requires
        0 <= k < params.len(),
        params[k].0 == "session"@,
        forall|j: int| k < j < params.len() ==> (#[trigger] params[j]).0 != "session"@,
    ensures
        request::query_session(params) == if params[k].1.len() >= 1 && vstd::utf8::encode_utf8(
            params[k].1,
        ).len() <= 64 {
            Some(params[k].1)
        } else {
            None
        },
{
    lemma_param(params, k);
}

proof fn lemma_param(params: Seq<(Seq<char>, Seq<char>)>, k: int)
    requires
        0 <= k < params.len(),
        params[k].0 == "session"@,
        forall|j: int| k < j < params.len() ==> (#[trigger] params[j]).0 != "session"@,
    ensures
        request::param_value(params, "session"@) == Some(params[k].1),
    decreases params.len(),
{
    if k < params.len() - 1 {
        assert(params[params.len() - 1].0 != "session"@);
        lemma_param(params.drop_last(), k);
    }
}

/// A query that does not speak of `session` names none.
pub proof fn law_no_session_in_query(params: Seq<(Seq<char>, Seq<char>)>)
    requires
        forall|j: int| 0 <= j < params.len() ==> (#[trigger] params[j]).0 != "session"@,
    ensures
        request::query_session(params) is None,
    decreases params.len(),
{
    if params.len() > 0 {
        assert(params[params.len() - 1].0 != "session"@);
        law_no_session_in_query(params.drop_last());
    }
}

/// Texts that are handed in are taken as they are.
pub proof fn law_texts_as_they_are(
    params: Seq<(String, String)>,
    session: Option<String>,
    t: Option<&str>,
)
    ensures
        request::param_texts(params).len() == params.len(),
        forall|i: int|
            0 <= i < params.len() ==> (#[trigger] request::param_texts(params)[i]).0
                == params[i].0@ && request::param_texts(params)[i].1 == params[i].1@,
        server::session_text(session) is Some <==> session is Some,
        session matches Some(sid) ==> server::session_text(session)->0 == sid@,
        text::opt_text(t) is Some <==> t is Some,
        t matches Some(x) ==> text::opt_text(t)->0 == x@,
{
}

/// The session that a text names is the text itself, if it has at least one character and at
/// most 64 bytes; the name on display is the one of the proxy, if it gives one.
pub proof fn law_what_texts_name(t: Option<Seq<char>>, peer: Seq<char>)
    ensures
        request::session_from(t) is Some <==> t is Some && t->0.len() >= 1
            && vstd::utf8::encode_utf8(t->0).len() <= 64,
        request::session_from(t) is Some ==> request::session_from(t) == t,
        t is Some ==> request::name_from(t, peer) == t->0,
        t is None ==> request::name_from(t, peer) == peer,
{
}

/// An event carries a message as its data, and nothing else.
pub proof fn law_event_carries_message(msg: Seq<char>)
    ensures
        msg.len() > 0 ==> stream::message_fields(msg).len() == 1 && stream::message_fields(msg)[0].0
            == "data"@ && stream::message_fields(msg)[0].1 == msg,
        msg.len() == 0 ==> stream::message_fields(msg).len() == 0,
{
}

/// The event for a busy visitor says so, and to try again after half a minute.
pub proof fn law_busy_event_says_busy()
    ensures
        stream::busy_fields().len() == 2,
        stream::busy_fields()[0].0 == "retry"@,
        place_value(stream::busy_fields()[0].1) == 30_000,
        stream::busy_fields()[1].0 == "data"@,
        stream::busy_fields()[1].1 == "{\"phase\":\"busy\"}"@,
{
    law_decimal_text(30_000);
}

/// Asking a stream for its next event makes it remember that a busy visitor has been told, and
/// changes nothing else.
pub proof fn law_stream_remembers(st: StreamView)
    ensures
        st.polled().busy == st.busy,
        st.polled().told <==> st.told || st.busy,
        st.emits() <==> st.busy && !st.told,
        !st.polled().emits(),
{
}

}
