//! What holds of the table whatever happens: the laws of the game and of the seats.
use vstd::prelude::*;

use crate::board;
use crate::model;
use crate::model::{GameView, Phase, WinReason};
use crate::server;

verus! {

/// The table nobody has come to yet is valid.
pub proof fn law_fresh_valid()
    ensures
        GameView::fresh().valid(),
{
    board::lemma_empty_grid(1);
}

/// A seat given up outside of a game leaves a valid table.
pub proof fn law_vacated_valid(s: GameView, idx: int)
    requires
        s.valid(),
        0 <= idx < 2,
    ensures
        s.vacated(idx).valid(),
{
    board::lemma_empty_grid(1);
}

/// A seat given up during a game leaves a valid table.
pub proof fn law_forfeited_valid(s: GameView, idx: int)
    requires
        s.valid(),
        0 <= idx < 2,
        s.phase == Phase::Playing,
    ensures
        s.forfeited(idx).valid(),
{
}

/// A free seat taken by a session that holds none leaves a valid table.
pub proof fn law_seated_valid(s: GameView, idx: int, sid: Seq<char>, ip: Seq<char>)
    requires
        s.valid(),
        0 <= idx < 2,
        !s.taken(idx),
        s.seat_of(sid) is None,
    ensures
        s.seated(idx, sid, ip).valid(),
{
    board::lemma_empty_grid(1);
}

/// A new connection leaves a valid table.
pub proof fn law_connected_valid(s: GameView, idx: int)
    requires
        s.valid(),
        0 <= idx < 2,
        s.taken(idx),
    ensures
        s.connected(idx).valid(),
{
}

/// A visitor coming to the table leaves it valid.
pub proof fn law_admitted_valid(s: GameView, sid: Seq<char>, ip: Seq<char>)
    requires
        s.valid(),
    ensures
        s.admitted(sid, ip).valid(),
{
    match s.seat_of(sid) {
        Some(idx) => {
            law_connected_valid(s, idx);
        },
        None => {
            if let Some(idx) = s.free_seat() {
                law_seated_valid(s, idx, sid, ip);
                law_connected_valid(s.seated(idx, sid, ip), idx);
            }
        },
    }
}

/// The first game of a pair begun leaves a valid table.
pub proof fn law_started_valid(s: GameView)
    requires
        s.valid(),
        s.phase == Phase::Ready,
    ensures
        s.started().valid(),
{
    board::lemma_empty_grid(1);
    board::lemma_empty_grid(2);
}

/// A move leaves a valid table.
pub proof fn law_moved_valid(s: GameView, idx: int, col: int)
    requires
        s.valid(),
        0 <= idx < 2,
        0 <= col < board::COLS,
        s.may_move(idx),
        board::landing(s.board, col) is Some,
    ensures
        s.moved(idx, col).valid(),
{
    let me = model::player_no(idx);
    let you = model::opponent(me);
    let row = board::landing(s.board, col)->0;
    board::lemma_landing_exists(s.board, col);
    board::lemma_placed(s.board, row, col, me);
    board::lemma_settled_after(s.board, row, col, me);
    board::lemma_no_run_for_other(s.board, row, col, me, you);
    board::lemma_count_placed(s.board, row, col, me, me);
    board::lemma_count_placed(s.board, row, col, me, you);
    if row > 0 {
        board::lemma_empty_above(s.board, row, col, row - 1);
    }
}

/// A request for another game leaves a valid table.
pub proof fn law_rematch_valid(s: GameView, idx: int)
    requires
        s.valid(),
        0 <= idx < 2,
        s.taken(idx),
        s.may_rematch(idx),
    ensures
        s.rematch_asked(idx).valid(),
{
    board::lemma_empty_grid(1);
    board::lemma_empty_grid(2);
}

/// A closed connection leaves a valid table.
pub proof fn law_disconnected_valid(s: GameView, idx: int, id: int)
    requires
        s.valid(),
        0 <= idx < 2,
    ensures
        s.disconnected(idx, id).valid(),
{
    if s.taken(idx) {
        let conns = s.players[idx]->0.conns;
        let left = model::without(conns, id);
        lemma_without(conns, id);
        assert forall|i: int| 0 <= i < left.len() implies 1 <= #[trigger] left[i]
            <= s.next_conn_id by {
            assert(conns.contains(left[i]));
        }
        if s.both_taken() {
            let others = s.players[1 - idx]->0.conns;
            assert forall|i: int, j: int|
                0 <= i < left.len() && 0 <= j < others.len() implies #[trigger] left[i]
                != #[trigger] others[j] by {
                assert(conns.contains(left[i]));
            }
        }
    }
}

/// The connections left when one is closed were there before, occur once if they did, and
/// are not the closed one.
proof fn lemma_without(conns: Seq<int>, id: int)
    ensures
        forall|i: int|
            0 <= i < model::without(conns, id).len() ==> conns.contains(
                #[trigger] model::without(conns, id)[i],
            ) && model::without(conns, id)[i] != id,
        conns.no_duplicates() ==> model::without(conns, id).no_duplicates(),
        conns.len() == 0 ==> model::without(conns, id).len() == 0,
    decreases conns.len(),
{
    reveal(Seq::filter);
    let left = model::without(conns, id);
    if conns.len() > 0 {
        let init = conns.drop_last();
        let left_init = model::without(init, id);
        lemma_without(init, id);
        assert(left == if conns.last() != id {
            left_init.push(conns.last())
        } else {
            left_init
        });
        assert forall|i: int| 0 <= i < left.len() implies conns.contains(#[trigger] left[i])
            && left[i] != id by {
            if i < left_init.len() {
                assert(init.contains(left_init[i]));
            } else {
                assert(left[i] == conns.last());
            }
        }
        if conns.no_duplicates() {
            assert forall|i: int, j: int|
                0 <= i < left.len() && 0 <= j < left.len() && i != j implies left[i] != left[j] by {
                let n = left_init.len();
                if i < n && j == n {
                    assert(init.contains(left_init[i]));
                } else if j < n && i == n {
                    assert(init.contains(left_init[j]));
                }
            }
        }
    }
}

/// A grace period begun for a player who is away from a game leaves a valid table.
pub proof fn law_grace_begun_valid(s: GameView, idx: int, until: int)
    requires
        s.valid(),
        0 <= idx < 2,
        s.away(idx),
        s.phase == Phase::Playing,
    ensures
        s.grace_begun(idx, until).valid(),
{
}

/// A lost connection noticed leaves a valid table.
pub proof fn law_loss_noticed_valid(s: GameView, idx: int)
    requires
        s.valid(),
        0 <= idx < 2,
    ensures
        s.loss_noticed(idx).valid(),
{
    law_vacated_valid(s, idx);
}

/// The end of a grace period leaves a valid table.
pub proof fn law_grace_over_valid(s: GameView, idx: int, gen: int)
    requires
        s.valid(),
        0 <= idx < 2,
    ensures
        s.grace_over(idx, gen).valid(),
{
    law_vacated_valid(s, idx);
    if s.phase == Phase::Playing {
        law_forfeited_valid(s, idx);
    }
}

/// Anything that can happen at the table.
pub enum Happening {
    /// A visitor asks for a stream of events.
    Visit { session: Option<Seq<char>>, ip: Seq<char> },
    /// Someone asks to begin the first game.
    Start { session: Option<Seq<char>> },
    /// Someone moves.
    Move { session: Option<Seq<char>>, col: int },
    /// Someone asks for another game.
    Rematch { session: Option<Seq<char>> },
    /// A connection is closed.
    Closed { idx: int, id: int },
    /// The loss of a connection is noticed; where a game is on, a grace period begins.
    Lost { idx: int, until: int },
    /// A grace period is over.
    Expired { idx: int, gen: int },
}

impl Happening {
    /// Whether the seat and the column that are spoken of can be.
    pub open spec fn possible(self) -> bool {
        match self {
            Happening::Move { col, .. } => col >= 0,
            Happening::Closed { idx, .. } => 0 <= idx < 2,
            Happening::Lost { idx, .. } => 0 <= idx < 2,
            Happening::Expired { idx, .. } => 0 <= idx < 2,
            _ => true,
        }
    }

    /// What it makes of the table.
    pub open spec fn after(self, s: GameView) -> GameView {
        match self {
            Happening::Visit { session, ip } => server::after_events(s, session, ip),
            Happening::Start { session } => server::start_outcome(s, session).game,
            Happening::Move { session, col } => server::move_outcome(s, session, col).game,
            Happening::Rematch { session } => server::rematch_outcome(s, session).game,
            Happening::Closed { idx, id } => s.disconnected(idx, id),
            Happening::Lost { idx, until } => if s.away(idx) && s.phase == Phase::Playing {
                s.grace_begun(idx, until)
            } else {
                s.loss_noticed(idx)
            },
            Happening::Expired { idx, gen } => s.grace_over(idx, gen),
        }
    }
}

/// The table after a course of happenings.
pub open spec fn run(s: GameView, course: Seq<Happening>) -> GameView
    decreases course.len(),
{
    if course.len() == 0 {
        s
    } else {
        course.last().after(run(s, course.drop_last()))
    }
}

/// Whether everything in a course of happenings can be.
pub open spec fn all_possible(course: Seq<Happening>) -> bool {
    forall|i: int| 0 <= i < course.len() ==> (#[trigger] course[i]).possible()
}

/// Whatever happens, the table stays valid.
pub proof fn law_happening_valid(s: GameView, h: Happening)
    requires
        s.valid(),
        h.possible(),
    ensures
        h.after(s).valid(),
{
    match h {
        Happening::Visit { session, ip } => {
            if let Some(sid) = session {
                law_admitted_valid(s, sid, ip);
            }
        },
        Happening::Start { session } => {
            if s.phase == Phase::Ready {
                law_started_valid(s);
            }
        },
        Happening::Move { session, col } => {
            if let Some(sid) = session {
                if let Some(idx) = s.seat_of(sid) {
                    if col < board::COLS && s.may_move(idx) && board::landing(
                        s.board,
                        col,
                    ) is Some {
                        law_moved_valid(s, idx, col);
                    }
                }
            }
        },
        Happening::Rematch { session } => {
            if let Some(sid) = session {
                if let Some(idx) = s.seat_of(sid) {
                    if s.may_rematch(idx) {
                        law_rematch_valid(s, idx);
                    }
                }
            }
        },
        Happening::Closed { idx, id } => {
            law_disconnected_valid(s, idx, id);
        },
        Happening::Lost { idx, until } => {
            if s.away(idx) && s.phase == Phase::Playing {
                law_grace_begun_valid(s, idx, until);
            } else {
                law_loss_noticed_valid(s, idx);
            }
        },
        Happening::Expired { idx, gen } => {
            law_grace_over_valid(s, idx, gen);
        },
    }
}

/// From a valid table, every course of happenings leads to a valid table.
pub proof fn law_course_valid(s: GameView, course: Seq<Happening>)
    requires
        s.valid(),
        all_possible(course),
    ensures
        run(s, course).valid(),
    decreases course.len(),
{
    if course.len() > 0 {
        let init = course.drop_last();
        assert forall|i: int| 0 <= i < init.len() implies (#[trigger] init[i]).possible() by {
            assert(course[i].possible());
        }
        law_course_valid(s, init);
        law_happening_valid(run(s, init), course.last());
    }
}

/// Every course of happenings from the table nobody has come to yet leads to a valid table.
pub proof fn law_reachable_valid(course: Seq<Happening>)
    requires
        all_possible(course),
    ensures
        run(GameView::fresh(), course).valid(),
{
    law_fresh_valid();
    law_course_valid(GameView::fresh(), course);
}

/// While a game is on, nothing but the end of a grace period takes a player's seat away.
pub proof fn law_seats_kept_during_game(s: GameView, h: Happening)
    requires
        s.valid(),
        s.phase == Phase::Playing,
        h.possible(),
        h !is Expired,
    ensures
        h.after(s).both_taken(),
        h.after(s).players[0]->0.sid == s.players[0]->0.sid,
        h.after(s).players[1]->0.sid == s.players[1]->0.sid,
{
}

/// Whatever happens, the counts that number grace periods and connections do not go back.
pub proof fn law_numbers_grow(s: GameView, h: Happening)
    requires
        s.valid(),
        h.possible(),
    ensures
        h.after(s).grace_gen[0] >= s.grace_gen[0],
        h.after(s).grace_gen[1] >= s.grace_gen[1],
        h.after(s).next_conn_id >= s.next_conn_id,
{
}

/// Over a course of happenings the counts that number grace periods and connections do not go
/// back.
pub proof fn law_course_numbers_grow(s: GameView, course: Seq<Happening>)
    requires
        s.valid(),
        all_possible(course),
    ensures
        run(s, course).grace_gen[0] >= s.grace_gen[0],
        run(s, course).grace_gen[1] >= s.grace_gen[1],
        run(s, course).next_conn_id >= s.next_conn_id,
    decreases course.len(),
{
    if course.len() > 0 {
        let init = course.drop_last();
        assert forall|i: int| 0 <= i < init.len() implies (#[trigger] init[i]).possible() by {
            assert(course[i].possible());
        }
        law_course_valid(s, init);
        law_course_numbers_grow(s, init);
        law_numbers_grow(run(s, init), course.last());
    }
}

/// A new connection has a number that no connection at the table has.
pub proof fn law_new_connection_number(s: GameView, idx: int)
    requires
        s.valid(),
        0 <= idx < 2,
        s.taken(idx),
    ensures
        !s.players[idx]->0.conns.contains(s.connected(idx).next_conn_id),
        s.connected(idx).players[idx]->0.conns == s.players[idx]->0.conns.push(
            s.connected(idx).next_conn_id,
        ),
        s.taken(1 - idx) ==> !s.players[1 - idx]->0.conns.contains(s.connected(idx).next_conn_id),
{
}

/// The close of a connection that is not one of the player in the seat changes nothing. So one
/// that outlived its player does not touch the player who has the seat now.
pub proof fn law_foreign_close(s: GameView, idx: int, id: int)
    requires
        s.valid(),
        0 <= idx < 2,
        s.taken(idx) ==> !s.players[idx]->0.conns.contains(id),
    ensures
        s.disconnected(idx, id) == s,
{
    if s.taken(idx) {
        lemma_without_other(s.players[idx]->0.conns, id);
    }
}

/// Where none of the connections is the closed one, all are left.
pub proof fn lemma_without_other(conns: Seq<int>, id: int)
    requires
        !conns.contains(id),
    ensures
        model::without(conns, id) == conns,
    decreases conns.len(),
{
    reveal(Seq::filter);
    if conns.len() > 0 {
        let init = conns.drop_last();
        assert forall|i: int| 0 <= i < init.len() implies init[i] != id by {
            assert(conns.contains(conns[i]));
        }
        lemma_without_other(init, id);
    }
}

/// A player who comes back in time is not thrown out: once they have opened a connection, the
/// end of a grace period that was begun before does nothing, whatever else happens.
pub proof fn law_return_calls_off_grace(
    s: GameView,
    before: Seq<Happening>,
    sid: Seq<char>,
    ip: Seq<char>,
    later: Seq<Happening>,
    idx: int,
    gen: int,
)
    requires
        s.valid(),
        0 <= idx < 2,
        gen <= s.grace_gen[idx],
        all_possible(before),
        all_possible(later),
        run(s, before).seat_for(sid) == Some(idx),
    ensures
        ({
            let back = run(s, before).admitted(sid, ip);
            run(back, later).grace_over(idx, gen) == run(back, later)
        }),
{
    let away = run(s, before);
    let back = away.admitted(sid, ip);
    law_course_valid(s, before);
    law_course_numbers_grow(s, before);
    law_admitted_valid(away, sid, ip);
    law_course_numbers_grow(back, later);
}

/// A later grace period takes the place of an earlier one, whose end does nothing any more.
pub proof fn law_later_grace_counts(
    s: GameView,
    idx: int,
    until: int,
    later: Seq<Happening>,
    gen: int,
)
    requires
        s.valid(),
        0 <= idx < 2,
        s.away(idx),
        s.phase == Phase::Playing,
        gen <= s.grace_gen[idx],
        all_possible(later),
    ensures
        ({
            let begun = s.grace_begun(idx, until);
            run(begun, later).grace_over(idx, gen) == run(begun, later)
        }),
{
    law_grace_begun_valid(s, idx, until);
    law_course_numbers_grow(s.grace_begun(idx, until), later);
}

/// A grace period during which nothing happens ends the game: the player who stayed away
/// loses it, and the seat is free.
pub proof fn law_staying_away_forfeits(s: GameView, idx: int, until: int)
    requires
        s.valid(),
        0 <= idx < 2,
        s.away(idx),
        s.phase == Phase::Playing,
    ensures
        ({
            let begun = s.grace_begun(idx, until);
            let over = begun.grace_over(idx, begun.grace_gen[idx]);
            &&& over.phase == Phase::Finished
            &&& over.win_reason == WinReason::Forfeit
            &&& over.winner == model::player_no(1 - idx)
            &&& over.score[1 - idx] == s.score[1 - idx] + 1
            &&& over.score[idx] == s.score[idx]
            &&& !over.taken(idx)
            &&& over.taken(1 - idx)
            &&& over.board == s.board
        }),
{
}

/// A request that is turned down changes nothing, and nobody is told of it.
pub proof fn law_refusal_changes_nothing(s: GameView, session: Option<Seq<char>>, col: int)
    ensures
        server::start_outcome(s, session).status != server::OK ==> server::start_outcome(
            s,
            session,
        ).game == s && server::start_outcome(s, session).messages().len() == 0,
        server::move_outcome(s, session, col).status != server::OK ==> server::move_outcome(
            s,
            session,
            col,
        ).game == s && server::move_outcome(s, session, col).messages().len() == 0,
        server::rematch_outcome(s, session).status != server::OK ==> server::rematch_outcome(
            s,
            session,
        ).game == s && server::rematch_outcome(s, session).messages().len() == 0,
{
}

/// Only someone at the table can start, move or ask for another game.
pub proof fn law_strangers_refused(s: GameView, sid: Seq<char>, col: int)
    requires
        s.seat_of(sid) is None,
    ensures
        server::start_outcome(s, Some(sid)).status != server::OK,
        server::move_outcome(s, Some(sid), col).status != server::OK,
        server::rematch_outcome(s, Some(sid)).status != server::OK,
{
}

/// Where both seats are taken by others, a visitor gets none, and nothing changes.
pub proof fn law_full_table_turns_away(s: GameView, sid: Seq<char>, ip: Seq<char>)
    requires
        s.valid(),
        s.both_taken(),
        s.players[0]->0.sid != sid,
        s.players[1]->0.sid != sid,
    ensures
        s.seat_for(sid) is None,
        s.admitted(sid, ip) == s,
{
}

/// A player who comes back finds the game, the score and their name as they were.
pub proof fn law_return_keeps_game(s: GameView, sid: Seq<char>, ip: Seq<char>, idx: int)
    requires
        s.valid(),
        s.seat_of(sid) == Some(idx),
    ensures
        ({
            let t = s.admitted(sid, ip);
            &&& t.seat_of(sid) == Some(idx)
            &&& t.players[idx]->0.ip == s.players[idx]->0.ip
            &&& t.players[1 - idx] == s.players[1 - idx]
            &&& !t.away(idx)
            &&& t.grace_end[idx] == 0
            &&& t.board == s.board
            &&& t.phase == s.phase
            &&& t.turn == s.turn
            &&& t.starter == s.starter
            &&& t.winner == s.winner
            &&& t.win_reason == s.win_reason
            &&& t.win_line == s.win_line
            &&& t.last_move == s.last_move
            &&& t.rematch == s.rematch
            &&& t.score == s.score
            &&& t.draws == s.draws
        }),
{
}

/// A visitor who comes to a free seat holds it, and the score of the table starts at nothing.
pub proof fn law_newcomer_sits(s: GameView, sid: Seq<char>, ip: Seq<char>, idx: int)
    requires
        s.valid(),
        s.seat_of(sid) is None,
        s.free_seat() == Some(idx),
    ensures
        ({
            let t = s.admitted(sid, ip);
            &&& t.seat_of(sid) == Some(idx)
            &&& t.players[idx]->0.ip == ip
            &&& t.players[1 - idx] == s.players[1 - idx]
            &&& t.phase == (if s.taken(1 - idx) {
                Phase::Ready
            } else {
                Phase::Waiting
            })
            &&& t.untouched()
        }),
{
}

/// A move puts one piece of its player on the lowest free cell of the column, and leaves every
/// other cell alone.
pub proof fn law_move_places_one_piece(s: GameView, idx: int, col: int)
    requires
        s.valid(),
        0 <= idx < 2,
        0 <= col < board::COLS,
        s.may_move(idx),
        board::landing(s.board, col) is Some,
    ensures
        ({
            let row = board::landing(s.board, col)->0;
            let t = s.moved(idx, col);
            &&& board::is_landing(s.board, col, row)
            &&& t.board[row][col] == model::player_no(idx)
            &&& forall|r: int, c: int|
                board::on_board(r, c) && !(r == row && c == col) ==> #[trigger] t.board[r][c]
                    == s.board[r][c]
            &&& t.last_move == Some((row, col))
        }),
{
    let row = board::landing(s.board, col)->0;
    board::lemma_landing_exists(s.board, col);
    board::lemma_placed(s.board, row, col, model::player_no(idx));
}

/// The search finds four in a row exactly where there is one, and what it finds is one.
pub proof fn law_search_finds_fours(g: Seq<Seq<u8>>, p: u8)
    ensures
        board::first_four(g, p) is Some <==> board::has_four(g, p),
        board::first_four(g, p) matches Some(cells) ==> {
            &&& cells.len() == 4
            &&& forall|i: int|
                0 <= i < 4 ==> {
                    let at = #[trigger] cells[i];
                    board::on_board(at.0, at.1) && g[at.0][at.1] == p
                }
        },
{
    if board::has_four(g, p) {
        let (r, c, d) = board::lemma_first_four_exists(g, p);
        let cells = board::run_cells(r, c, d);
        assert forall|i: int| 0 <= i < 4 implies {
            let at = #[trigger] cells[i];
            board::on_board(at.0, at.1) && g[at.0][at.1] == p
        } by {
            assert(board::step_holds(g, p, r, c, d, i));
        }
    }
}

/// A move wins exactly when it leaves four in a row of its player, and the line on display
/// goes through the piece that was dropped.
pub proof fn law_win_is_four(s: GameView, idx: int, col: int)
    requires
        s.valid(),
        0 <= idx < 2,
        0 <= col < board::COLS,
        s.may_move(idx),
        board::landing(s.board, col) is Some,
    ensures
        ({
            let t = s.moved(idx, col);
            let me = model::player_no(idx);
            &&& (t.phase == Phase::Finished && t.winner == me) <==> board::has_four(t.board, me)
            &&& t.winner == me ==> {
                &&& t.win_line is Some
                &&& t.win_line->0.contains((board::landing(s.board, col)->0, col))
            }
        }),
{
    let me = model::player_no(idx);
    let row = board::landing(s.board, col)->0;
    let t = s.moved(idx, col);
    board::lemma_landing_exists(s.board, col);
    if board::has_four(t.board, me) {
        let (r, c, d) = board::lemma_first_four_exists(t.board, me);
        board::lemma_run_through_piece(s.board, row, col, me, r, c, d);
    }
}

/// A move is a draw exactly when it fills the board without four in a row.
pub proof fn law_draw_is_full_board(s: GameView, idx: int, col: int)
    requires
        s.valid(),
        0 <= idx < 2,
        0 <= col < board::COLS,
        s.may_move(idx),
        board::landing(s.board, col) is Some,
    ensures
        ({
            let t = s.moved(idx, col);
            t.win_reason == WinReason::Draw <==> {
                &&& !board::has_four(t.board, model::player_no(idx))
                &&& forall|r: int, c: int| board::on_board(r, c) ==> #[trigger] t.board[r][c] != 0
            }
        }),
{
    let t = s.moved(idx, col);
    law_moved_valid(s, idx, col);
    if board::top_full(t.board) {
        board::lemma_full_grid(t.board);
    } else {
        let c = choose|c: int| 0 <= c < board::COLS && #[trigger] t.board[0][c] == 0;
    }
}

/// The players take turns: after a move that does not end the game, it is the other's turn.
pub proof fn law_turns_alternate(s: GameView, idx: int, col: int)
    requires
        s.valid(),
        0 <= idx < 2,
        0 <= col < board::COLS,
        s.may_move(idx),
        board::landing(s.board, col) is Some,
    ensures
        s.moved(idx, col).phase == Phase::Playing ==> s.moved(idx, col).may_move(1 - idx)
            && !s.moved(idx, col).may_move(idx),
        s.moved(idx, col).phase == Phase::Finished ==> !s.moved(idx, col).may_move(0) && !s.moved(
            idx,
            col,
        ).may_move(1),
{
}

/// While a game is on, exactly one player may move, and some column takes a piece.
pub proof fn law_game_never_stuck(s: GameView)
    requires
        s.valid(),
        s.phase == Phase::Playing,
    ensures
        s.may_move(0) <==> !s.may_move(1),
        exists|col: int| 0 <= col < board::COLS && (#[trigger] board::landing(s.board, col)) is Some,
{
    let c = choose|c: int| 0 <= c < board::COLS && #[trigger] s.board[0][c] == 0;
    board::lemma_landing_exists(s.board, c);
}

/// A game has at most as many moves as the board has cells: every move adds one piece, and
/// while the game is on there is a free cell.
pub proof fn law_game_ends(s: GameView, idx: int, col: int)
    requires
        s.valid(),
        0 <= idx < 2,
        0 <= col < board::COLS,
        s.may_move(idx),
        board::landing(s.board, col) is Some,
    ensures
        board::count(s.board, 1) + board::count(s.board, 2) < 42,
        board::count(s.moved(idx, col).board, 1) + board::count(s.moved(idx, col).board, 2)
            == board::count(s.board, 1) + board::count(s.board, 2) + 1,
{
    let me = model::player_no(idx);
    let row = board::landing(s.board, col)->0;
    board::lemma_landing_exists(s.board, col);
    board::lemma_count_placed(s.board, row, col, me, 1);
    board::lemma_count_placed(s.board, row, col, me, 2);
    board::lemma_count_room(s.board, row, col);
}

/// A draw takes as many moves as the board has cells.
pub proof fn law_draw_takes_all_cells(s: GameView)
    requires
        s.valid(),
        s.phase == Phase::Finished,
        s.win_reason == WinReason::Draw,
    ensures
        board::count(s.board, 1) + board::count(s.board, 2) == 42,
{
    board::lemma_full_grid(s.board);
    assert forall|r: int, c: int| board::on_board(r, c) implies 1 <= #[trigger] s.board[r][c]
        <= 2 by {}
    board::lemma_count_full(s.board);
}

/// Games of the pair that have been counted.
pub open spec fn games_counted(s: GameView) -> int {
    s.score[0] + s.score[1] + s.draws
}

/// Every game that comes to an end is counted once: a win for its winner, a draw as a draw.
/// A move that does not end the game counts nothing.
pub proof fn law_games_counted_once(s: GameView, idx: int, col: int)
    requires
        s.valid(),
        0 <= idx < 2,
        0 <= col < board::COLS,
        s.may_move(idx),
        board::landing(s.board, col) is Some,
    ensures
        ({
            let t = s.moved(idx, col);
            &&& games_counted(t) == games_counted(s) + if t.phase == Phase::Finished {
                1int
            } else {
                0int
            }
            &&& t.score[idx] == s.score[idx] + if t.phase == Phase::Finished && t.winner
                == model::player_no(idx) {
                1int
            } else {
                0int
            }
            &&& t.score[1 - idx] == s.score[1 - idx]
        }),
{
}

/// The score lives as long as the pair does: as long as both seats keep their players, nothing
/// that happens takes a game off it.
pub proof fn law_score_lives_with_pair(s: GameView, h: Happening)
    requires
        s.valid(),
        h.possible(),
        s.both_taken(),
        h.after(s).both_taken(),
    ensures
        h.after(s).score[0] >= s.score[0],
        h.after(s).score[1] >= s.score[1],
        h.after(s).draws >= s.draws,
        h.after(s).players[0]->0.sid == s.players[0]->0.sid,
        h.after(s).players[1]->0.sid == s.players[1]->0.sid,
{
}

/// When one of a pair leaves outside of a game, the score is forgotten.
pub proof fn law_score_dies_with_pair(s: GameView, idx: int)
    requires
        s.valid(),
        0 <= idx < 2,
    ensures
        games_counted(s.vacated(idx)) == 0,
        s.vacated(idx).phase == Phase::Waiting,
        !s.vacated(idx).taken(idx),
        s.vacated(idx).players[1 - idx] == s.players[1 - idx],
{
}

/// Player 1 starts the first game of a pair.
pub proof fn law_player_one_starts(s: GameView)
    requires
        s.valid(),
        s.phase == Phase::Ready,
    ensures
        s.started().turn == 1,
        s.started().board == board::empty_grid(),
{
}

/// Another game begins when both have asked for it, on an empty board, with the player to
/// start who did not start the last one, and with the score as it was. Until both have, the
/// game that is over stays on display.
pub proof fn law_rematch_needs_both(s: GameView, idx: int)
    requires
        s.valid(),
        0 <= idx < 2,
        s.taken(idx),
        s.may_rematch(idx),
    ensures
        ({
            let t = s.rematch_asked(idx);
            &&& t.phase == Phase::Playing <==> s.rematch[1 - idx]
            &&& t.score == s.score
            &&& t.draws == s.draws
            &&& t.phase == Phase::Playing ==> {
                &&& t.board == board::empty_grid()
                &&& t.starter == model::opponent(s.starter)
                &&& t.turn == t.starter
            }
            &&& t.phase != Phase::Playing ==> {
                &&& t.phase == Phase::Finished
                &&& t.rematch[idx]
                &&& t.board == s.board
                &&& t.winner == s.winner
                &&& t.starter == s.starter
            }
        }),
{
}

/// After a game that was lost by staying away there is nobody to ask for another.
pub proof fn law_no_rematch_after_forfeit(s: GameView, idx: int)
    requires
        s.valid(),
        0 <= idx < 2,
        s.taken(idx),
        s.phase == Phase::Finished,
        s.win_reason == WinReason::Forfeit,
    ensures
        !s.may_rematch(idx),
        s.winner == model::player_no(idx),
{
}

/// Both players are told of the same game, each from their side.
pub proof fn law_players_told_the_same(s: GameView)
    requires
        s.valid(),
        s.both_taken(),
    ensures
        ({
            let a = s.state_for(0);
            let b = s.state_for(1);
            &&& a.you == 1
            &&& b.you == 2
            &&& a.phase == b.phase
            &&& a.board == b.board
            &&& a.turn == b.turn
            &&& a.winner == b.winner
            &&& a.win_reason == b.win_reason
            &&& a.win_line == b.win_line
            &&& a.last_move == b.last_move
            &&& a.draws == b.draws
            &&& a.your_ip == b.opp_ip
            &&& a.opp_ip == b.your_ip
            &&& a.rematch_you == b.rematch_opp
            &&& a.rematch_opp == b.rematch_you
            &&& a.score_you == b.score_opp
            &&& a.score_opp == b.score_you
        }),
{
}

/// A player is told of a deadline only while the other player is away.
pub proof fn law_deadline_only_while_away(s: GameView, idx: int)
    requires
        s.valid(),
        0 <= idx < 2,
        s.taken(idx),
    ensures
        s.state_for(idx).grace_end != 0 ==> !s.state_for(idx).opp_online && s.away(1 - idx),
{
}

/// Every player is told, on each of their connections, and nobody else.
pub proof fn law_everyone_told(s: GameView)
    requires
        s.valid(),
    ensures
        s.broadcast().len() == (if s.taken(0) {
            1int
        } else {
            0int
        }) + (if s.taken(1) {
            1int
        } else {
            0int
        }),
        s.taken(0) ==> s.broadcast()[0].conns == s.players[0]->0.conns && s.broadcast()[0].state
            == s.state_for(0),
        s.taken(1) ==> s.broadcast().last().conns == s.players[1]->0.conns
            && s.broadcast().last().state == s.state_for(1),
{
}

}
