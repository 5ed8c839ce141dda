//! The mathematical model of the table: its state, and what each event makes of it.
//!
//! Seats are numbered 0 and 1; the player in seat `i` is player number `i + 1`.
use vstd::prelude::*;

use crate::board;

verus! {

/// What stage the table is at.
#[derive(Clone, Copy, Debug, PartialEq, Eq, Structural)]
pub enum Phase {
    /// A seat is free.
    Waiting,
    /// Both seats are taken and the first game has not begun.
    Ready,
    /// A game is on.
    Playing,
    /// A game is over.
    Finished,
}

/// How a game ended.
#[derive(Clone, Copy, Debug, PartialEq, Eq, Structural)]
pub enum WinReason {
    /// It has not.
    Undecided,
    /// Someone has four in a row.
    Connect4,
    /// The board is full.
    Draw,
    /// Someone never came back.
    Forfeit,
}

impl Phase {
    /// The word for a phase in a message.
    pub open spec fn spec_text(self) -> Seq<char> {
        match self {
            Phase::Waiting => "waiting"@,
            Phase::Ready => "ready"@,
            Phase::Playing => "playing"@,
            Phase::Finished => "finished"@,
        }
    }

    /// The word for a phase in a message.
    pub fn text(self) -> (text: &'static str)
        ensures
            text@ == self.spec_text(),
    {
        match self {
            Phase::Waiting => "waiting",
            Phase::Ready => "ready",
            Phase::Playing => "playing",
            Phase::Finished => "finished",
        }
    }
}

impl WinReason {
    /// The word for the end of a game in a message, empty while it has not ended.
    pub open spec fn spec_text(self) -> Seq<char> {
        match self {
            WinReason::Undecided => ""@,
            WinReason::Connect4 => "connect4"@,
            WinReason::Draw => "draw"@,
            WinReason::Forfeit => "forfeit"@,
        }
    }

    /// The word for the end of a game in a message, empty while it has not ended.
    pub fn text(self) -> (text: &'static str)
        ensures
            text@ == self.spec_text(),
    {
        match self {
            WinReason::Undecided => "",
            WinReason::Connect4 => "connect4",
            WinReason::Draw => "draw",
            WinReason::Forfeit => "forfeit",
        }
    }
}

/// Someone in a seat: the session, the name on display, and the open connections.
#[verifier::ext_equal]
pub struct PlayerView {
    pub sid: Seq<char>,
    pub ip: Seq<char>,
    pub conns: Seq<int>,
}

/// The state of the table.
#[verifier::ext_equal]
pub struct GameView {
    pub players: Seq<Option<PlayerView>>,
    pub board: Seq<Seq<u8>>,
    pub phase: Phase,
    pub turn: u8,
    pub starter: u8,
    pub winner: u8,
    pub win_reason: WinReason,
    pub win_line: Option<Seq<(int, int)>>,
    pub last_move: Option<(int, int)>,
    pub rematch: Seq<bool>,
    pub score: Seq<int>,
    pub draws: int,
    pub grace_end: Seq<int>,
    pub grace_gen: Seq<int>,
    pub next_conn_id: int,
}

/// What one player is told of the table.
#[verifier::ext_equal]
pub struct StateView {
    pub phase: Seq<char>,
    pub board: Seq<Seq<u8>>,
    pub you: int,
    pub your_ip: Seq<char>,
    pub opp_ip: Seq<char>,
    pub opp_online: bool,
    pub turn: u8,
    pub winner: u8,
    pub win_reason: Seq<char>,
    pub win_line: Option<Seq<(int, int)>>,
    pub last_move: Option<(int, int)>,
    pub rematch_you: bool,
    pub rematch_opp: bool,
    pub score_you: int,
    pub score_opp: int,
    pub draws: int,
    pub grace_end: int,
}

/// One message and the connections it goes to.
#[verifier::ext_equal]
pub struct DeliveryView {
    pub conns: Seq<int>,
    pub state: StateView,
}

/// Whether a text can name a session: not empty, and at most 64 bytes in UTF-8.
pub open spec fn names_session(text: Seq<char>) -> bool {
    text.len() > 0 && vstd::utf8::encode_utf8(text).len() <= 64
}

/// The connections other than `id`, in their order.
pub open spec fn without(conns: Seq<int>, id: int) -> Seq<int> {
    conns.filter(|c: int| c != id)
}

/// The number of the player in a seat.
pub open spec fn player_no(idx: int) -> u8 {
    (idx + 1) as u8
}

/// The number of the player who is not `p`.
pub open spec fn opponent(p: u8) -> u8 {
    (3 - p) as u8
}

impl GameView {
    /// The table nobody has come to yet.
    pub open spec fn fresh() -> GameView {
        GameView {
            players: seq![None, None],
            board: board::empty_grid(),
            phase: Phase::Waiting,
            turn: 0,
            starter: 1,
            winner: 0,
            win_reason: WinReason::Undecided,
            win_line: None,
            last_move: None,
            rematch: seq![false, false],
            score: seq![0int, 0int],
            draws: 0,
            grace_end: seq![0int, 0int],
            grace_gen: seq![0int, 0int],
            next_conn_id: 0,
        }
    }

    /// Whether a seat is taken.
    pub open spec fn taken(self, idx: int) -> bool {
        self.players[idx] is Some
    }

    /// Whether both seats are taken.
    pub open spec fn both_taken(self) -> bool {
        self.taken(0) && self.taken(1)
    }

    /// Whether a seat is taken by the given session.
    pub open spec fn holds(self, idx: int, sid: Seq<char>) -> bool {
        self.taken(idx) && self.players[idx]->0.sid == sid
    }

    /// Whether the player in a seat has no open connection.
    pub open spec fn away(self, idx: int) -> bool {
        self.taken(idx) && self.players[idx]->0.conns.len() == 0
    }

    /// The seat of a session.
    pub open spec fn seat_of(self, sid: Seq<char>) -> Option<int> {
        if self.holds(0, sid) {
            Some(0)
        } else if self.holds(1, sid) {
            Some(1)
        } else {
            None
        }
    }

    /// The first free seat.
    pub open spec fn free_seat(self) -> Option<int> {
        if !self.taken(0) {
            Some(0)
        } else if !self.taken(1) {
            Some(1)
        } else {
            None
        }
    }

    /// The board and all that belongs to one game put back.
    pub open spec fn cleared(self) -> GameView {
        GameView {
            board: board::empty_grid(),
            winner: 0,
            win_reason: WinReason::Undecided,
            win_line: None,
            last_move: None,
            rematch: seq![false, false],
            grace_end: seq![0int, 0int],
            ..self
        }
    }

    /// The pair and its score forgotten: no game on, player 1 to start the next.
    pub open spec fn unpaired(self) -> GameView {
        GameView { score: seq![0int, 0int], draws: 0, starter: 1, turn: 0, ..self.cleared() }
    }

    /// A seat given up outside of a game.
    pub open spec fn vacated(self, idx: int) -> GameView {
        GameView {
            players: self.players.update(idx, None),
            phase: Phase::Waiting,
            ..self.unpaired()
        }
    }

    /// A seat given up during a game, which the other player wins.
    pub open spec fn forfeited(self, idx: int) -> GameView {
        GameView {
            players: self.players.update(idx, None),
            phase: Phase::Finished,
            winner: player_no(1 - idx),
            win_reason: WinReason::Forfeit,
            score: self.score.update(1 - idx, self.score[1 - idx] + 1),
            rematch: seq![false, false],
            grace_end: seq![0int, 0int],
            ..self
        }
    }

    /// A free seat taken by a new player.
    pub open spec fn seated(self, idx: int, sid: Seq<char>, ip: Seq<char>) -> GameView {
        GameView {
            players: self.players.update(
                idx,
                Some(PlayerView { sid, ip, conns: Seq::<int>::empty() }),
            ),
            phase: if self.taken(1 - idx) {
                Phase::Ready
            } else {
                Phase::Waiting
            },
            ..self.unpaired()
        }
    }

    /// The player in a seat with other connections.
    pub open spec fn with_conns(self, idx: int, conns: Seq<int>) -> GameView {
        GameView {
            players: self.players.update(
                idx,
                Some(PlayerView { conns, ..self.players[idx]->0 }),
            ),
            ..self
        }
    }

    /// A new connection of the player in a seat, which calls off a grace period.
    pub open spec fn connected(self, idx: int) -> GameView {
        let id = self.next_conn_id + 1;
        GameView {
            next_conn_id: id,
            grace_gen: self.grace_gen.update(idx, self.grace_gen[idx] + 1),
            grace_end: self.grace_end.update(idx, 0),
            ..self.with_conns(idx, self.players[idx]->0.conns.push(id))
        }
    }

    /// The seat a visitor comes to: their own, else a free one.
    pub open spec fn seat_for(self, sid: Seq<char>) -> Option<int> {
        match self.seat_of(sid) {
            Some(idx) => Some(idx),
            None => self.free_seat(),
        }
    }

    /// A visitor at their seat, or the table as it was where none is free.
    pub open spec fn admitted(self, sid: Seq<char>, ip: Seq<char>) -> GameView {
        match self.seat_of(sid) {
            Some(idx) => self.connected(idx),
            None => match self.free_seat() {
                Some(idx) => self.seated(idx, sid, ip).connected(idx),
                None => self,
            },
        }
    }

    /// The first game of a pair begun.
    pub open spec fn started(self) -> GameView {
        GameView { phase: Phase::Playing, turn: self.starter, ..self }
    }

    /// Whether the player in a seat may move.
    pub open spec fn may_move(self, idx: int) -> bool {
        self.phase == Phase::Playing && self.turn == player_no(idx)
    }

    /// A piece of the player in a seat on the board.
    pub open spec fn dropped(self, idx: int, row: int, col: int) -> GameView {
        GameView {
            board: board::placed(self.board, row, col, player_no(idx)),
            last_move: Some((row, col)),
            ..self
        }
    }

    /// What the piece just dropped by the player in a seat decides.
    pub open spec fn judged(self, idx: int) -> GameView {
        let me = player_no(idx);
        if board::has_four(self.board, me) {
            GameView {
                phase: Phase::Finished,
                winner: me,
                win_reason: WinReason::Connect4,
                win_line: board::first_four(self.board, me),
                score: self.score.update(idx, self.score[idx] + 1),
                ..self
            }
        } else if board::top_full(self.board) {
            GameView {
                phase: Phase::Finished,
                winner: 0,
                win_reason: WinReason::Draw,
                draws: self.draws + 1,
                ..self
            }
        } else {
            GameView { turn: opponent(self.turn), ..self }
        }
    }

    /// A move of the player in a seat, into a column that takes it.
    pub open spec fn moved(self, idx: int, col: int) -> GameView {
        self.dropped(idx, board::landing(self.board, col)->0, col).judged(idx)
    }

    /// Whether the player in a seat may ask for another game.
    pub open spec fn may_rematch(self, idx: int) -> bool {
        self.phase == Phase::Finished && self.taken(1 - idx)
    }

    /// The player in a seat asking for another game, which begins when both have.
    pub open spec fn rematch_asked(self, idx: int) -> GameView {
        let asked = GameView { rematch: self.rematch.update(idx, true), ..self };
        if asked.rematch[0] && asked.rematch[1] {
            GameView {
                starter: opponent(self.starter),
                turn: opponent(self.starter),
                phase: Phase::Playing,
                ..asked.cleared()
            }
        } else {
            asked
        }
    }

    /// One connection of the player in a seat closed.
    pub open spec fn disconnected(self, idx: int, id: int) -> GameView {
        if self.taken(idx) {
            self.with_conns(idx, without(self.players[idx]->0.conns, id))
        } else {
            self
        }
    }

    /// A grace period begun for the player in a seat, who has until `until` to come back.
    pub open spec fn grace_begun(self, idx: int, until: int) -> GameView {
        GameView {
            grace_gen: self.grace_gen.update(idx, self.grace_gen[idx] + 1),
            grace_end: self.grace_end.update(idx, until),
            ..self
        }
    }

    /// The loss of a connection noticed, other than during a game: an empty seat if no other
    /// connection is left.
    pub open spec fn loss_noticed(self, idx: int) -> GameView {
        if self.away(idx) && self.phase != Phase::Playing {
            self.vacated(idx)
        } else {
            self
        }
    }

    /// Whether the end of grace period number `gen` still concerns the player in a seat.
    pub open spec fn grace_counts(self, idx: int, gen: int) -> bool {
        self.grace_gen[idx] == gen && self.away(idx)
    }

    /// The end of grace period number `gen` of the player in a seat.
    pub open spec fn grace_over(self, idx: int, gen: int) -> GameView {
        if !self.grace_counts(idx, gen) {
            self
        } else if self.phase == Phase::Playing {
            self.forfeited(idx)
        } else {
            self.vacated(idx)
        }
    }

    /// What the player in a seat is told.
    pub open spec fn state_for(self, idx: int) -> StateView {
        let other = 1 - idx;
        StateView {
            phase: self.phase.spec_text(),
            board: self.board,
            you: idx + 1,
            your_ip: self.players[idx]->0.ip,
            opp_ip: match self.players[other] {
                Some(p) => p.ip,
                None => ""@,
            },
            opp_online: self.taken(other) && !self.away(other),
            turn: self.turn,
            winner: self.winner,
            win_reason: self.win_reason.spec_text(),
            win_line: self.win_line,
            last_move: self.last_move,
            rematch_you: self.rematch[idx],
            rematch_opp: self.rematch[other],
            score_you: self.score[idx],
            score_opp: self.score[other],
            draws: self.draws,
            grace_end: if self.taken(other) {
                self.grace_end[other]
            } else {
                0
            },
        }
    }

    /// The message to the player in a seat, if the seat is taken.
    pub open spec fn delivery_to(self, idx: int) -> Seq<DeliveryView> {
        match self.players[idx] {
            Some(p) => seq![DeliveryView { conns: p.conns, state: self.state_for(idx) }],
            None => Seq::<DeliveryView>::empty(),
        }
    }

    /// The messages that tell every player of the table.
    pub open spec fn broadcast(self) -> Seq<DeliveryView> {
        self.delivery_to(0) + self.delivery_to(1)
    }

    /// Whether every counter can be held in memory.
    pub open spec fn fits(self) -> bool {
        &&& self.score[0] <= u32::MAX
        &&& self.score[1] <= u32::MAX
        &&& self.draws <= u32::MAX
        &&& self.grace_gen[0] <= u64::MAX
        &&& self.grace_gen[1] <= u64::MAX
        &&& self.next_conn_id <= u64::MAX
    }

    /// Two of everything that belongs to a seat, and a board of the right size.
    pub open spec fn shape_ok(self) -> bool {
        &&& self.players.len() == 2
        &&& self.rematch.len() == 2
        &&& self.score.len() == 2
        &&& self.grace_end.len() == 2
        &&& self.grace_gen.len() == 2
        &&& board::shaped(self.board)
    }

    /// No session holds two seats.
    pub open spec fn sessions_ok(self) -> bool {
        self.both_taken() ==> self.players[0]->0.sid != self.players[1]->0.sid
    }

    /// Connection numbers of a seat have been given out, and none occurs twice.
    pub open spec fn seat_conns_ok(self, idx: int) -> bool {
        self.taken(idx) ==> {
            let conns = self.players[idx]->0.conns;
            &&& forall|i: int|
                0 <= i < conns.len() ==> 1 <= #[trigger] conns[i] <= self.next_conn_id
            &&& conns.no_duplicates()
        }
    }

    /// No connection belongs to both seats.
    pub open spec fn conns_apart(self) -> bool {
        self.both_taken() ==> forall|i: int, j: int|
            0 <= i < self.players[0]->0.conns.len() && 0 <= j < self.players[1]->0.conns.len()
                ==> #[trigger] self.players[0]->0.conns[i] != #[trigger] self.players[1]->0.conns[j]
    }

    /// No counter is negative.
    pub open spec fn counters_ok(self) -> bool {
        &&& self.score[0] >= 0
        &&& self.score[1] >= 0
        &&& self.draws >= 0
        &&& self.grace_gen[0] >= 0
        &&& self.grace_gen[1] >= 0
        &&& self.next_conn_id >= 0
    }

    /// A grace period runs only for a player who is away, and only since some game began.
    pub open spec fn grace_ok(self, idx: int) -> bool {
        self.grace_end[idx] != 0 ==> self.away(idx) && (self.phase == Phase::Playing || self.phase
            == Phase::Finished)
    }

    /// The pieces of two players, none hanging.
    pub open spec fn board_ok(self) -> bool {
        &&& board::settled(self.board)
        &&& forall|r: int, c: int| board::on_board(r, c) ==> #[trigger] self.board[r][c] <= 2
        &&& self.starter == 1 || self.starter == 2
    }

    /// The last move is the topmost piece of its column; there is none on an empty board only.
    pub open spec fn last_move_ok(self) -> bool {
        match self.last_move {
            Some((r, c)) => {
                &&& board::on_board(r, c)
                &&& self.board[r][c] != 0
                &&& r > 0 ==> self.board[r - 1][c] == 0
            },
            None => self.board == board::empty_grid(),
        }
    }

    /// Whose piece the last move was.
    pub open spec fn last_move_by(self, p: u8) -> bool {
        self.last_move matches Some((r, c)) ==> self.board[r][c] == p
    }

    /// Nothing of a game is left.
    pub open spec fn untouched(self) -> bool {
        &&& self.board == board::empty_grid()
        &&& self.turn == 0
        &&& self.starter == 1
        &&& self.winner == 0
        &&& self.win_reason == WinReason::Undecided
        &&& self.win_line is None
        &&& self.last_move is None
        &&& !self.rematch[0]
        &&& !self.rematch[1]
        &&& self.score[0] == 0
        &&& self.score[1] == 0
        &&& self.draws == 0
        &&& self.grace_end[0] == 0
        &&& self.grace_end[1] == 0
    }

    /// Neither player has four in a row.
    pub open spec fn no_four(self) -> bool {
        !board::has_four(self.board, 1) && !board::has_four(self.board, 2)
    }

    /// How many pieces the starter has more than the other player.
    pub open spec fn lead(self) -> int {
        board::count(self.board, self.starter) - board::count(self.board, opponent(self.starter))
    }

    /// The pieces on the board are those of a game in which it is player `p`'s turn.
    pub open spec fn turn_of(self, p: u8) -> bool {
        &&& p == 1 || p == 2
        &&& self.lead() == if p == self.starter {
            0int
        } else {
            1int
        }
        &&& self.last_move_by(opponent(p))
    }

    /// The pieces on the board are those of a game in which player `p` has just moved.
    pub open spec fn moved_by(self, p: u8) -> bool {
        &&& p == 1 || p == 2
        &&& self.lead() == if p == self.starter {
            1int
        } else {
            0int
        }
        &&& self.last_move is Some
        &&& self.last_move_by(p)
    }

    /// A game that goes on.
    pub open spec fn playing_ok(self) -> bool {
        &&& self.both_taken()
        &&& self.winner == 0
        &&& self.win_reason == WinReason::Undecided
        &&& self.win_line is None
        &&& !self.rematch[0]
        &&& !self.rematch[1]
        &&& self.no_four()
        &&& !board::top_full(self.board)
        &&& self.turn_of(self.turn)
    }

    /// A game that is over: its outcome is what the board shows, or that a player left.
    pub open spec fn finished_ok(self) -> bool {
        &&& !(self.rematch[0] && self.rematch[1])
        &&& self.score[0] + self.score[1] + self.draws >= 1
        &&& match self.win_reason {
            WinReason::Undecided => false,
            WinReason::Connect4 => {
                &&& self.both_taken()
                &&& self.winner == self.turn
                &&& self.moved_by(self.turn)
                &&& board::has_four(self.board, self.winner)
                &&& !board::has_four(self.board, opponent(self.winner))
                &&& self.win_line == board::first_four(self.board, self.winner)
                &&& self.score[self.winner - 1] >= 1
            },
            WinReason::Draw => {
                &&& self.both_taken()
                &&& self.winner == 0
                &&& self.moved_by(self.turn)
                &&& self.no_four()
                &&& board::top_full(self.board)
                &&& self.win_line is None
                &&& self.draws >= 1
            },
            WinReason::Forfeit => {
                &&& self.winner == 1 || self.winner == 2
                &&& self.taken(self.winner - 1)
                &&& !self.taken(2 - self.winner)
                &&& self.turn_of(self.turn)
                &&& self.no_four()
                &&& !board::top_full(self.board)
                &&& self.win_line is None
                &&& !self.rematch[0]
                &&& !self.rematch[1]
                &&& self.score[self.winner - 1] >= 1
            },
        }
    }

    /// What the phase says of the rest.
    pub open spec fn phase_ok(self) -> bool {
        match self.phase {
            Phase::Waiting => !self.both_taken() && self.untouched(),
            Phase::Ready => self.both_taken() && self.untouched(),
            Phase::Playing => self.playing_ok(),
            Phase::Finished => self.finished_ok(),
        }
    }

    /// What holds of the table at all times.
    pub open spec fn valid(self) -> bool {
        &&& self.shape_ok()
        &&& self.sessions_ok()
        &&& self.seat_conns_ok(0)
        &&& self.seat_conns_ok(1)
        &&& self.conns_apart()
        &&& self.counters_ok()
        &&& self.grace_ok(0)
        &&& self.grace_ok(1)
        &&& self.board_ok()
        &&& self.last_move_ok()
        &&& self.phase_ok()
    }
}

}
