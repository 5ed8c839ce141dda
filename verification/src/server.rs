//! The requests and events that the server handles.
//!
//! Each handler changes the table and says what is to be answered and sent. Sending, waiting
//! and reading the clock are left to the caller.
use axum::http::HeaderMap;
use vstd::prelude::*;

use crate::board;
use crate::board::COLS;
use crate::clock;
use crate::game;
use crate::game::{Delivery, Game};
use crate::model::{DeliveryView, GameView, Phase};
use crate::request;

verus! {

/// The request was carried out.
pub const OK: u16 = 200;

/// The request makes no sense.
pub const BAD_REQUEST: u16 = 400;

/// The request does not fit the state of the table.
pub const CONFLICT: u16 = 409;

/// The answer to a request, and the messages that its effect gives rise to.
pub struct Reply {
    pub status: u16,
    pub text: &'static str,
    pub deliveries: Vec<Delivery>,
}

/// The answer to a request that is turned down.
pub struct Refusal {
    pub status: u16,
    pub text: &'static str,
}

/// What a visitor who opens a stream of events gets.
pub enum Admission {
    /// A seat, and a connection number.
    Seated { idx: usize, conn_id: u64, deliveries: Vec<Delivery> },
    /// No seat: others are playing.
    Busy,
}

/// A move: the column that a piece is dropped into.
pub struct MoveReq {
    pub col: usize,
}

/// What to do about a lost connection.
pub enum Loss {
    /// Nothing: the player has another connection, or has left.
    Ignored,
    /// A game is on: begin a grace period.
    Grace,
    /// The player has left: send these messages.
    Left(Vec<Delivery>),
}

/// A grace period that has begun: its number, and the messages about it.
pub struct Grace {
    pub gen: u64,
    pub deliveries: Vec<Delivery>,
}

/// The effect of a request on the table, and the answer to it.
#[verifier::ext_equal]
pub struct Outcome {
    pub game: GameView,
    pub status: u16,
    pub text: Seq<char>,
}

impl Outcome {
    /// A request turned down, with no effect.
    pub open spec fn refused(game: GameView, status: u16, text: Seq<char>) -> Outcome {
        Outcome { game, status, text }
    }

    /// A request carried out.
    pub open spec fn done(game: GameView) -> Outcome {
        Outcome { game, status: OK, text: ""@ }
    }

    /// The messages that the request gives rise to: every player is told of an effect.
    pub open spec fn messages(self) -> Seq<DeliveryView> {
        if self.status == OK {
            self.game.broadcast()
        } else {
            Seq::empty()
        }
    }

    /// Whether a reply is what the outcome asks for.
    pub open spec fn answered_by(self, reply: Reply) -> bool {
        &&& reply.status == self.status
        &&& reply.text@ == self.text
        &&& game::deliveries(reply.deliveries@) == self.messages()
    }
}

/// A session as text, where there is one.
pub open spec fn session_text(session: Option<String>) -> Option<Seq<char>> {
    match session {
        Some(sid) => Some(sid@),
        None => None,
    }
}

/// What a request to begin the first game does.
pub open spec fn start_outcome(s: GameView, session: Option<Seq<char>>) -> Outcome {
    match session {
        None => Outcome::refused(s, BAD_REQUEST, "missing session"@),
        Some(sid) => if s.seat_of(sid) is None || s.phase != Phase::Ready {
            Outcome::refused(s, CONFLICT, "cannot start"@)
        } else {
            Outcome::done(s.started())
        },
    }
}

/// What a move does.
pub open spec fn move_outcome(s: GameView, session: Option<Seq<char>>, col: int) -> Outcome {
    match session {
        None => Outcome::refused(s, BAD_REQUEST, "missing session"@),
        Some(sid) => if col >= COLS {
            Outcome::refused(s, BAD_REQUEST, "bad move"@)
        } else {
            match s.seat_of(sid) {
                None => Outcome::refused(s, CONFLICT, "not your turn"@),
                Some(idx) => if !s.may_move(idx) {
                    Outcome::refused(s, CONFLICT, "not your turn"@)
                } else if board::landing(s.board, col) is None {
                    Outcome::refused(s, CONFLICT, "column full"@)
                } else {
                    Outcome::done(s.moved(idx, col))
                },
            }
        },
    }
}

/// What a request for another game does.
pub open spec fn rematch_outcome(s: GameView, session: Option<Seq<char>>) -> Outcome {
    match session {
        None => Outcome::refused(s, BAD_REQUEST, "missing session"@),
        Some(sid) => match s.seat_of(sid) {
            None => Outcome::refused(s, CONFLICT, "cannot rematch"@),
            Some(idx) => if !s.may_rematch(idx) {
                Outcome::refused(s, CONFLICT, "cannot rematch"@)
            } else {
                Outcome::done(s.rematch_asked(idx))
            },
        },
    }
}

/// The table once a visitor has asked for a stream of events.
pub open spec fn after_events(
    s: GameView,
    session: Option<Seq<char>>,
    ip: Seq<char>,
) -> GameView {
    match session {
        Some(sid) => s.admitted(sid, ip),
        None => s,
    }
}

/// Whether a visitor who asks for a stream of events can be counted. The name on display
/// makes no difference.
pub open spec fn events_fit(s: GameView, session: Option<Seq<char>>) -> bool {
    after_events(s, session, Seq::empty()).fits()
}

/// Whether a visitor who asks for a stream of events can be counted.
pub fn can_let_in(game: &Game, params: &Vec<(String, String)>) -> (can: bool)
    requires
        game.wf(),
    ensures
        can == events_fit(game@, request::query_session(request::param_texts(params@))),
{
    proof {
        Game::lemma_fits(*game);
    }
    match request::session_param(params) {
        Some(sid) => {
            let own: Option<usize> = game.player_index(sid.as_str());
            let seat: Option<usize> = if own.is_some() {
                own
            } else {
                game.free_seat()
            };
            match seat {
                Some(idx) => game.connect_fits(idx),
                None => true,
            }
        },
        None => true,
    }
}

/// Whether a grace period of `secs` seconds from `now` on has an end and can be counted.
pub fn can_start_grace(game: &Game, idx: usize, now: i64, secs: u64) -> (can: bool)
    requires
        idx < 2,
    ensures
        can == (clock::has_deadline(now, secs) && game@.grace_begun(
            idx as int,
            now + clock::signed_secs(secs),
        ).fits()),
{
    clock::deadline(now, secs).is_some() && game.grace_fits(idx)
}

/// Whether what the end of grace period number `gen` brings about can be counted.
pub fn can_expire(game: &Game, idx: usize, gen: u64) -> (can: bool)
    requires
        game.wf(),
        idx < 2,
    ensures
        can == game@.grace_over(idx as int, gen as int).fits(),
{
    proof {
        Game::lemma_fits(*game);
    }
    !game.grace_counts(idx, gen) || game.phase() != Phase::Playing || game.forfeit_fits(idx)
}

/// The answer to a request that is turned down.
fn refuse(status: u16, text: &'static str) -> (reply: Reply)
    ensures
        reply.status == status,
        reply.text@ == text@,
        game::deliveries(reply.deliveries@) == Seq::<DeliveryView>::empty(),
{
    Reply { status, text, deliveries: Vec::new() }
}

fn done(game: &Game) -> (reply: Reply)
    ensures
        Outcome::done(game@).answered_by(reply),
{
    Reply { status: OK, text: "", deliveries: game.broadcast() }
}

/// Whether an answer is what a visitor who asks for a stream of events is owed, on a table
/// that was `s` and is `t` now.
pub open spec fn admission_ok(
    s: GameView,
    t: GameView,
    session: Option<Seq<char>>,
    admission: Result<Admission, Refusal>,
) -> bool {
    match session {
        None => admission matches Err(refusal) && refusal.status == BAD_REQUEST && refusal.text@
            == "missing session"@,
        Some(sid) => match s.seat_for(sid) {
            Some(seat) => {
                &&& admission matches Ok(Admission::Seated { idx, conn_id, deliveries })
                &&& idx == seat
                &&& conn_id == s.next_conn_id + 1
                &&& game::deliveries(deliveries@) == t.broadcast()
            },
            None => admission matches Ok(Admission::Busy),
        },
    }
}

/// Lets a visitor in: to the seat of their session, or to a free one.
pub fn let_in(game: &mut Game, session: Option<String>, ip: String) -> (admission: Result<
    Admission,
    Refusal,
>)
    requires
        old(game).wf(),
        events_fit(old(game)@, session_text(session)),
    ensures
        final(game).wf(),
        final(game)@ == after_events(old(game)@, session_text(session), ip@),
        admission_ok(old(game)@, final(game)@, session_text(session), admission),
{
    let sid: String = match session {
        Some(sid) => sid,
        None => {
            return Err(Refusal { status: BAD_REQUEST, text: "missing session" });
        },
    };
    let mut seat: Option<usize> = game.player_index(sid.as_str());
    if seat.is_none() {
        seat = game.free_seat();
        if let Some(free) = seat {
            game.seat_player(free, sid, ip);
        }
    }
    match seat {
        Some(idx) => {
            let conn_id = game.connect(idx);
            Ok(Admission::Seated { idx, conn_id, deliveries: game.broadcast() })
        },
        None => Ok(Admission::Busy),
    }
}

/// Lets a visitor in who asks for a stream of events. The session comes in the query, the
/// name on display with the header fields or the connection.
pub fn events(
    game: &mut Game,
    params: &Vec<(String, String)>,
    headers: &HeaderMap,
    peer: &str,
) -> (admission: Result<Admission, Refusal>)
    requires
        old(game).wf(),
        events_fit(old(game)@, request::query_session(request::param_texts(params@))),
    ensures
        final(game).wf(),
        final(game)@ == after_events(
            old(game)@,
            request::query_session(request::param_texts(params@)),
            request::display_name(request::header_values(*headers), peer@),
        ),
        admission_ok(
            old(game)@,
            final(game)@,
            request::query_session(request::param_texts(params@)),
            admission,
        ),
{
    let session = request::session_param(params);
    let ip = request::client_ip(headers, peer);
    let_in(game, session, ip)
}

/// Begins the first game of the pair, on the request of the session of either player.
pub fn start_as(game: &mut Game, session: Option<String>) -> (reply: Reply)
    requires
        old(game).wf(),
    ensures
        final(game).wf(),
        final(game)@ == start_outcome(old(game)@, session_text(session)).game,
        start_outcome(old(game)@, session_text(session)).answered_by(reply),
{
    let sid: String = match session {
        Some(sid) => sid,
        None => {
            return refuse(BAD_REQUEST, "missing session");
        },
    };
    if game.player_index(sid.as_str()).is_none() || game.phase() != Phase::Ready {
        return refuse(CONFLICT, "cannot start");
    }
    game.begin();
    done(game)
}

/// Begins the first game of the pair, on the request of either player.
pub fn start(game: &mut Game, headers: &HeaderMap) -> (reply: Reply)
    requires
        old(game).wf(),
    ensures
        final(game).wf(),
        ({
            let outcome = start_outcome(
                old(game)@,
                request::header_session(request::header_values(*headers)),
            );
            final(game)@ == outcome.game && outcome.answered_by(reply)
        }),
{
    start_as(game, request::session_of(headers))
}

/// Whether a move of a session, if it ends the game, can be counted.
pub fn can_move(game: &Game, session: &Option<String>, col: usize) -> (can: bool)
    requires
        game.wf(),
    ensures
        can == move_outcome(game@, session_text(*session), col as int).game.fits(),
{
    proof {
        Game::lemma_fits(*game);
    }
    match session {
        Some(sid) => {
            if col >= COLS {
                return true;
            }
            match game.player_index(sid.as_str()) {
                Some(idx) => {
                    if !game.may_move(idx) {
                        return true;
                    }
                    match game.landing_row(col) {
                        Some(row) => game.drop_fits(idx, row, col),
                        None => true,
                    }
                },
                None => true,
            }
        },
        None => true,
    }
}

/// Drops a piece for a session, if it is the turn of its player.
pub fn move_as(game: &mut Game, session: Option<String>, col: usize) -> (reply: Reply)
    requires
        old(game).wf(),
        move_outcome(old(game)@, session_text(session), col as int).game.fits(),
    ensures
        final(game).wf(),
        final(game)@ == move_outcome(old(game)@, session_text(session), col as int).game,
        move_outcome(old(game)@, session_text(session), col as int).answered_by(reply),
{
    let sid: String = match session {
        Some(sid) => sid,
        None => {
            return refuse(BAD_REQUEST, "missing session");
        },
    };
    if col >= COLS {
        return refuse(BAD_REQUEST, "bad move");
    }
    let idx: usize = match game.player_index(sid.as_str()) {
        Some(idx) => idx,
        None => {
            return refuse(CONFLICT, "not your turn");
        },
    };
    if !game.may_move(idx) {
        return refuse(CONFLICT, "not your turn");
    }
    let row: usize = match game.landing_row(col) {
        Some(row) => row,
        None => {
            return refuse(CONFLICT, "column full");
        },
    };
    game.drop_piece(idx, row, col);
    done(game)
}

/// Drops a piece for the player whose turn it is. Where the end of the game that the piece
/// would bring about cannot be counted any more, nothing is done and nothing is answered.
pub fn play_move(game: &mut Game, headers: &HeaderMap, req: MoveReq) -> (reply: Option<Reply>)
    requires
        old(game).wf(),
    ensures
        final(game).wf(),
        ({
            let outcome = move_outcome(
                old(game)@,
                request::header_session(request::header_values(*headers)),
                req.col as int,
            );
            match reply {
                Some(r) => {
                    &&& outcome.game.fits()
                    &&& final(game)@ == outcome.game
                    &&& outcome.answered_by(r)
                },
                None => !outcome.game.fits() && final(game)@ == old(game)@,
            }
        }),
{
    let session = request::session_of(headers);
    if !can_move(game, &session, req.col) {
        return None;
    }
    Some(move_as(game, session, req.col))
}

/// Notes that the player of a session asks for another game, which begins when both have.
pub fn rematch_as(game: &mut Game, session: Option<String>) -> (reply: Reply)
    requires
        old(game).wf(),
    ensures
        final(game).wf(),
        final(game)@ == rematch_outcome(old(game)@, session_text(session)).game,
        rematch_outcome(old(game)@, session_text(session)).answered_by(reply),
{
    let sid: String = match session {
        Some(sid) => sid,
        None => {
            return refuse(BAD_REQUEST, "missing session");
        },
    };
    let idx: usize = match game.player_index(sid.as_str()) {
        Some(idx) => idx,
        None => {
            return refuse(CONFLICT, "cannot rematch");
        },
    };
    if !game.may_rematch(idx) {
        return refuse(CONFLICT, "cannot rematch");
    }
    game.ask_rematch(idx);
    done(game)
}

/// Notes that a player asks for another game, which begins when both have.
pub fn rematch(game: &mut Game, headers: &HeaderMap) -> (reply: Reply)
    requires
        old(game).wf(),
    ensures
        final(game).wf(),
        ({
            let outcome = rematch_outcome(
                old(game)@,
                request::header_session(request::header_values(*headers)),
            );
            final(game)@ == outcome.game && outcome.answered_by(reply)
        }),
{
    rematch_as(game, request::session_of(headers))
}

/// Notices that a connection of the player in a seat was lost. Outside of a game a player
/// without a connection leaves; during a game they are given time to come back.
pub fn conn_lost(game: &mut Game, idx: usize) -> (loss: Loss)
    requires
        old(game).wf(),
        idx < 2,
    ensures
        final(game).wf(),
        final(game)@ == old(game)@.loss_noticed(idx as int),
        match loss {
            Loss::Ignored => !old(game)@.away(idx as int),
            Loss::Grace => old(game)@.away(idx as int) && old(game)@.phase == Phase::Playing,
            Loss::Left(deliveries) => {
                &&& old(game)@.away(idx as int)
                &&& old(game)@.phase != Phase::Playing
                &&& game::deliveries(deliveries@) == final(game)@.broadcast()
            },
        },
{
    if !game.is_away(idx) {
        return Loss::Ignored;
    }
    if game.phase() == Phase::Playing {
        return Loss::Grace;
    }
    game.remove_player(idx);
    Loss::Left(game.broadcast())
}

/// Begins a grace period of `secs` seconds, from `now` on, for a player away from a game.
pub fn start_grace(game: &mut Game, idx: usize, now: i64, secs: u64) -> (grace: Grace)
    requires
        old(game).wf(),
        idx < 2,
        old(game)@.away(idx as int),
        old(game)@.phase == Phase::Playing,
        clock::has_deadline(now, secs),
        old(game)@.grace_begun(idx as int, now + clock::signed_secs(secs)).fits(),
    ensures
        final(game).wf(),
        final(game)@ == old(game)@.grace_begun(idx as int, now + clock::signed_secs(secs)),
        grace.gen == final(game)@.grace_gen[idx as int],
        game::deliveries(grace.deliveries@) == final(game)@.broadcast(),
{
    let until: i64 = now + clock::as_signed(secs);
    let gen = game.begin_grace(idx, until);
    Grace { gen, deliveries: game.broadcast() }
}

/// Ends grace period number `gen` of the player in a seat. If they have not come back, a game
/// that is on is lost, and the seat is free.
pub fn grace_expired(game: &mut Game, idx: usize, gen: u64) -> (sent: Option<Vec<Delivery>>)
    requires
        old(game).wf(),
        idx < 2,
        old(game)@.grace_over(idx as int, gen as int).fits(),
    ensures
        final(game).wf(),
        final(game)@ == old(game)@.grace_over(idx as int, gen as int),
        match sent {
            Some(deliveries) => {
                &&& old(game)@.grace_counts(idx as int, gen as int)
                &&& game::deliveries(deliveries@) == final(game)@.broadcast()
            },
            None => !old(game)@.grace_counts(idx as int, gen as int),
        },
{
    if !game.grace_counts(idx, gen) {
        return None;
    }
    if game.phase() == Phase::Playing {
        game.forfeit(idx);
    } else {
        game.remove_player(idx);
    }
    Some(game.broadcast())
}

}
