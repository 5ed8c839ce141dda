//! The table as it is held in memory.
use vstd::prelude::*;

use crate::board;
use crate::board::{Cells, Line, COLS};
use crate::laws;
use crate::model;
use crate::model::{DeliveryView, GameView, Phase, PlayerView, StateView, WinReason};

verus! {

/// A player is one browser tab (an anonymous session); the IP is only a display name.
pub struct Player {
    sid: String,
    ip: String,
    conns: Vec<u64>,
}

/// Two seats, a board and the score of the pair.
pub struct Game {
    players: [Option<Player>; 2],
    board: Cells,
    phase: Phase,
    turn: u8,
    starter: u8,
    winner: u8,
    win_reason: WinReason,
    win_line: Option<Line>,
    last_move: Option<[u8; 2]>,
    rematch: [bool; 2],
    score: [u32; 2],
    draws: u32,
    grace_end: [i64; 2],
    grace_gen: [u64; 2],
    next_conn_id: u64,
}

/// What one player is told of the table.
pub struct StateMsg {
    pub phase: &'static str,
    pub board: Cells,
    pub you: u8,
    pub your_ip: String,
    pub opp_ip: String,
    pub opp_online: bool,
    pub turn: u8,
    pub winner: u8,
    pub win_reason: &'static str,
    pub win_line: Option<Line>,
    pub last_move: Option<[u8; 2]>,
    pub rematch_you: bool,
    pub rematch_opp: bool,
    pub score_you: u32,
    pub score_opp: u32,
    pub draws: u32,
    pub grace_end: i64,
}

/// One message and the numbers of the connections it goes to.
pub struct Delivery {
    pub conns: Vec<u64>,
    pub state: StateMsg,
}

/// Connection numbers as integers.
pub open spec fn numbers(conns: Seq<u64>) -> Seq<int> {
    Seq::new(conns.len(), |i: int| conns[i] as int)
}

/// The four cells of a line, where there is one.
pub open spec fn opt_line(line: Option<Line>) -> Option<Seq<(int, int)>> {
    match line {
        Some(l) => Some(board::line_cells(l)),
        None => None,
    }
}

/// The row and column of a move, where there is one.
pub open spec fn opt_cell(cell: Option<[u8; 2]>) -> Option<(int, int)> {
    match cell {
        Some(m) => Some((m[0] as int, m[1] as int)),
        None => None,
    }
}

impl View for Player {
    type V = PlayerView;

    closed spec fn view(&self) -> PlayerView {
        PlayerView { sid: self.sid@, ip: self.ip@, conns: numbers(self.conns@) }
    }
}

impl View for StateMsg {
    type V = StateView;

    open spec fn view(&self) -> StateView {
        StateView {
            phase: self.phase@,
            board: board::grid(self.board),
            you: self.you as int,
            your_ip: self.your_ip@,
            opp_ip: self.opp_ip@,
            opp_online: self.opp_online,
            turn: self.turn,
            winner: self.winner,
            win_reason: self.win_reason@,
            win_line: opt_line(self.win_line),
            last_move: opt_cell(self.last_move),
            rematch_you: self.rematch_you,
            rematch_opp: self.rematch_opp,
            score_you: self.score_you as int,
            score_opp: self.score_opp as int,
            draws: self.draws as int,
            grace_end: self.grace_end as int,
        }
    }
}

impl View for Delivery {
    type V = DeliveryView;

    open spec fn view(&self) -> DeliveryView {
        DeliveryView { conns: numbers(self.conns@), state: self.state@ }
    }
}

/// What a list of messages stands for.
pub open spec fn deliveries(list: Seq<Delivery>) -> Seq<DeliveryView> {
    Seq::new(list.len(), |i: int| list[i]@)
}

/// Who sits where.
spec fn seats(players: [Option<Player>; 2]) -> Seq<Option<PlayerView>> {
    Seq::new(
        2,
        |i: int|
            match players[i] {
                Some(p) => Some(p@),
                None => None,
            },
    )
}

impl View for Game {
    type V = GameView;

    closed spec fn view(&self) -> GameView {
        GameView {
            players: seats(self.players),
            board: board::grid(self.board),
            phase: self.phase,
            turn: self.turn,
            starter: self.starter,
            winner: self.winner,
            win_reason: self.win_reason,
            win_line: opt_line(self.win_line),
            last_move: opt_cell(self.last_move),
            rematch: self.rematch@,
            score: Seq::new(2, |i: int| self.score[i] as int),
            draws: self.draws as int,
            grace_end: Seq::new(2, |i: int| self.grace_end[i] as int),
            grace_gen: Seq::new(2, |i: int| self.grace_gen[i] as int),
            next_conn_id: self.next_conn_id as int,
        }
    }
}

/// A copy of a list of connection numbers.
fn copy_ids(conns: &Vec<u64>) -> (copy: Vec<u64>)
    ensures
        copy@ == conns@,
{
    let mut copy: Vec<u64> = Vec::new();
    let mut i: usize = 0;
    while i < conns.len()
        invariant
            i <= conns.len(),
            copy@ == conns@.take(i as int),
        decreases conns.len() - i,
    {
        copy.push(conns[i]);
        i += 1;
    }
    copy
}

/// The connection numbers other than `id`, in their order.
fn ids_without(conns: &Vec<u64>, id: u64) -> (left: Vec<u64>)
    ensures
        numbers(left@) == model::without(numbers(conns@), id as int),
{
    let ghost all = numbers(conns@);
    let mut left: Vec<u64> = Vec::new();
    let mut i: usize = 0;
    proof {
        reveal(Seq::filter);
    }
    while i < conns.len()
        invariant
            i <= conns.len(),
            all == numbers(conns@),
            numbers(left@) == model::without(all.take(i as int), id as int),
        decreases conns.len() - i,
    {
        if conns[i] != id {
            left.push(conns[i]);
        }
        proof {
            reveal(Seq::filter);
            let next = all.take(i + 1);
            assert(next.drop_last() =~= all.take(i as int));
        }
        i += 1;
    }
    assert(all.take(all.len() as int) =~= all);
    left
}

impl Game {
    /// What holds of every table.
    pub open spec fn wf(&self) -> bool {
        self@.valid()
    }

    /// The counters of a table held in memory can be held in memory.
    pub proof fn lemma_fits(game: Game)
        ensures
            game@.fits(),
    {
    }

    /// The table nobody has come to yet.
    pub fn new() -> (game: Game)
        ensures
            game@ == GameView::fresh(),
            game.wf(),
    {
        let game = Game {
            players: [None, None],
            board: [[0u8; 7]; 6],
            phase: Phase::Waiting,
            turn: 0,
            starter: 1,
            winner: 0,
            win_reason: WinReason::Undecided,
            win_line: None,
            last_move: None,
            rematch: [false; 2],
            score: [0u32; 2],
            draws: 0,
            grace_end: [0i64; 2],
            grace_gen: [0u64; 2],
            next_conn_id: 0,
        };
        proof {
            assert(game@ =~~= GameView::fresh());
            laws::law_fresh_valid();
        }
        game
    }

    /// The seat of a session.
    pub fn player_index(&self, sid: &str) -> (idx: Option<usize>)
        ensures
            match idx {
                Some(i) => i < 2 && self@.seat_of(sid@) == Some(i as int),
                None => self@.seat_of(sid@) is None,
            },
    {
        let key: String = sid.to_owned();
        let mut i: usize = 0;
        while i < 2
            invariant
                i <= 2,
                key@ == sid@,
                forall|j: int| 0 <= j < i ==> !#[trigger] self@.holds(j, sid@),
            decreases 2 - i,
        {
            if let Some(p) = &self.players[i] {
                if p.sid == key {
                    return Some(i);
                }
            }
            i += 1;
        }
        None
    }

    /// Puts the board and all that belongs to one game back.
    fn reset_board(&mut self)
        ensures
            final(self)@ == old(self)@.cleared(),
    {
        self.board = [[0u8; 7]; 6];
        self.winner = 0;
        self.win_reason = WinReason::Undecided;
        self.win_line = None;
        self.last_move = None;
        self.rematch = [false; 2];
        self.grace_end = [0i64; 2];
        assert(self@ =~~= old(self)@.cleared());
    }

    /// What the player in a seat is told.
    pub fn state_for(&self, idx: usize) -> (msg: StateMsg)
        requires
            idx < 2,
            self@.taken(idx as int),
        ensures
            msg@ == self@.state_for(idx as int),
    {
        let other: usize = 1 - idx;
        let your_ip: String = match &self.players[idx] {
            Some(p) => p.ip.clone(),
            None => String::new(),
        };
        let opp_ip: String = match &self.players[other] {
            Some(p) => p.ip.clone(),
            None => "".to_owned(),
        };
        let opp_online: bool = match &self.players[other] {
            Some(p) => p.conns.len() > 0,
            None => false,
        };
        let grace_end: i64 = if self.players[other].is_some() {
            self.grace_end[other]
        } else {
            0
        };
        let msg = StateMsg {
            phase: self.phase.text(),
            board: self.board,
            you: idx as u8 + 1,
            your_ip,
            opp_ip,
            opp_online,
            turn: self.turn,
            winner: self.winner,
            win_reason: self.win_reason.text(),
            win_line: self.win_line,
            last_move: self.last_move,
            rematch_you: self.rematch[idx],
            rematch_opp: self.rematch[other],
            score_you: self.score[idx],
            score_opp: self.score[other],
            draws: self.draws,
            grace_end,
        };
        msg
    }

    /// The messages that tell every player of the table.
    pub fn broadcast(&self) -> (list: Vec<Delivery>)
        ensures
            deliveries(list@) == self@.broadcast(),
    {
        let mut list: Vec<Delivery> = Vec::new();
        if let Some(p) = &self.players[0] {
            let state = self.state_for(0);
            list.push(Delivery { conns: copy_ids(&p.conns), state });
        }
        if let Some(p) = &self.players[1] {
            let state = self.state_for(1);
            list.push(Delivery { conns: copy_ids(&p.conns), state });
        }
        list
    }

    /// Empties a seat outside of a game, and forgets the pair.
    pub fn remove_player(&mut self, idx: usize)
        requires
            old(self).wf(),
            idx < 2,
        ensures
            final(self)@ == old(self)@.vacated(idx as int),
            final(self).wf(),
    {
        self.players[idx] = None;
        self.reset_board();
        self.score = [0u32; 2];
        self.draws = 0;
        self.phase = Phase::Waiting;
        self.starter = 1;
        self.turn = 0;
        proof {
            laws::law_vacated_valid(old(self)@, idx as int);
        }
    }

    /// Ends a game because a player never came back.
    pub fn forfeit(&mut self, idx: usize)
        requires
            old(self).wf(),
            idx < 2,
            old(self)@.phase == Phase::Playing,
            old(self)@.forfeited(idx as int).fits(),
        ensures
            final(self)@ == old(self)@.forfeited(idx as int),
            final(self).wf(),
    {
        self.players[idx] = None;
        self.phase = Phase::Finished;
        self.winner = 2 - idx as u8;
        self.win_reason = WinReason::Forfeit;
        self.score[1 - idx] += 1;
        self.rematch = [false; 2];
        self.grace_end = [0i64; 2];
        proof {
            laws::law_forfeited_valid(old(self)@, idx as int);
        }
    }

    /// The first four in a row of player `p`.
    pub fn find_win(&self, p: u8) -> (line: Option<Line>)
        ensures
            opt_line(line) == board::first_four(self@.board, p),
    {
        board::find_four(&self.board, p)
    }

    /// Whether no column takes another piece.
    pub fn full(&self) -> (full: bool)
        ensures
            full == board::top_full(self@.board),
    {
        board::is_top_full(&self.board)
    }

    /// The stage the table is at.
    pub fn phase(&self) -> (phase: Phase)
        ensures
            phase == self@.phase,
    {
        self.phase
    }

    /// Whether the player in a seat has no open connection.
    pub fn is_away(&self, idx: usize) -> (away: bool)
        requires
            idx < 2,
        ensures
            away == self@.away(idx as int),
    {
        match &self.players[idx] {
            Some(p) => p.conns.len() == 0,
            None => false,
        }
    }

    /// Whether the player in a seat may move.
    pub fn may_move(&self, idx: usize) -> (may: bool)
        requires
            idx < 2,
        ensures
            may == self@.may_move(idx as int),
    {
        self.phase == Phase::Playing && self.turn == idx as u8 + 1
    }

    /// Whether the player in a seat may ask for another game.
    pub fn may_rematch(&self, idx: usize) -> (may: bool)
        requires
            idx < 2,
        ensures
            may == self@.may_rematch(idx as int),
    {
        self.phase == Phase::Finished && self.players[1 - idx].is_some()
    }

    /// Whether another connection of the player in a seat can be counted.
    pub fn connect_fits(&self, idx: usize) -> (fits: bool)
        requires
            idx < 2,
        ensures
            fits == self@.connected(idx as int).fits(),
    {
        self.next_conn_id < u64::MAX && self.grace_gen[idx] < u64::MAX
    }

    /// Whether another grace period of the player in a seat can be counted.
    pub fn grace_fits(&self, idx: usize) -> (fits: bool)
        requires
            idx < 2,
        ensures
            forall|until: int| fits == #[trigger] self@.grace_begun(idx as int, until).fits(),
    {
        self.grace_gen[idx] < u64::MAX
    }

    /// Whether a game that the player in a seat loses by staying away can be counted.
    pub fn forfeit_fits(&self, idx: usize) -> (fits: bool)
        requires
            idx < 2,
        ensures
            fits == self@.forfeited(idx as int).fits(),
    {
        self.score[1 - idx] < u32::MAX
    }

    /// Whether the end of a game, if a piece dropped by the player in a seat brings it about,
    /// can be counted.
    pub fn drop_fits(&self, idx: usize, row: usize, col: usize) -> (fits: bool)
        requires
            idx < 2,
            col < COLS,
            row < board::ROWS,
            board::landing(self@.board, col as int) == Some(row as int),
        ensures
            fits == self@.moved(idx as int, col as int).fits(),
    {
        let me: u8 = idx as u8 + 1;
        let mut cells: Cells = self.board;
        cells[row][col] = me;
        let ghost dropped = self@.dropped(idx as int, row as int, col as int);
        assert(board::grid(cells) =~~= dropped.board);
        if board::find_four(&cells, me).is_some() {
            self.score[idx] < u32::MAX
        } else if board::is_top_full(&cells) {
            self.draws < u32::MAX
        } else {
            true
        }
    }

    /// The first free seat.
    pub fn free_seat(&self) -> (idx: Option<usize>)
        ensures
            match idx {
                Some(i) => i < 2 && self@.free_seat() == Some(i as int),
                None => self@.free_seat() is None,
            },
    {
        if self.players[0].is_none() {
            Some(0)
        } else if self.players[1].is_none() {
            Some(1)
        } else {
            None
        }
    }

    /// Gives a free seat to a new player. The pair is a new one, whose score starts at nothing.
    pub fn seat_player(&mut self, idx: usize, sid: String, ip: String)
        requires
            old(self).wf(),
            idx < 2,
            !old(self)@.taken(idx as int),
            old(self)@.seat_of(sid@) is None,
        ensures
            final(self)@ == old(self)@.seated(idx as int, sid@, ip@),
            final(self).wf(),
    {
        let ghost sid_text = sid@;
        let ghost ip_text = ip@;
        self.players[idx] = Some(Player { sid, ip, conns: Vec::new() });
        self.reset_board();
        self.score = [0u32; 2];
        self.draws = 0;
        self.starter = 1;
        self.turn = 0;
        assert(self@.players[1 - idx as int] == seats(self.players)[1 - idx as int]);
        self.phase = if self.players[1 - idx].is_some() {
            Phase::Ready
        } else {
            Phase::Waiting
        };
        proof {
            assert(self@ =~~= old(self)@.seated(idx as int, sid_text, ip_text));
            laws::law_seated_valid(old(self)@, idx as int, sid_text, ip_text);
        }
    }

    /// Notes a new connection of the player in a seat, and calls off a grace period.
    pub fn connect(&mut self, idx: usize) -> (id: u64)
        requires
            old(self).wf(),
            idx < 2,
            old(self)@.taken(idx as int),
            old(self)@.connected(idx as int).fits(),
        ensures
            id == old(self)@.next_conn_id + 1,
            final(self)@ == old(self)@.connected(idx as int),
            final(self).wf(),
    {
        self.next_conn_id += 1;
        let id: u64 = self.next_conn_id;
        if let Some(p) = &mut self.players[idx] {
            p.conns.push(id);
        }
        self.grace_gen[idx] += 1;
        self.grace_end[idx] = 0;
        proof {
            assert(self@ =~~= old(self)@.connected(idx as int));
            laws::law_connected_valid(old(self)@, idx as int);
        }
        id
    }

    /// Begins the first game of a pair.
    pub fn begin(&mut self)
        requires
            old(self).wf(),
            old(self)@.phase == Phase::Ready,
        ensures
            final(self)@ == old(self)@.started(),
            final(self).wf(),
    {
        self.phase = Phase::Playing;
        self.turn = self.starter;
        proof {
            laws::law_started_valid(old(self)@);
        }
    }

    /// The row in which a piece dropped into a column comes to rest.
    pub fn landing_row(&self, col: usize) -> (row: Option<usize>)
        requires
            col < COLS,
        ensures
            match row {
                Some(r) => r < board::ROWS && board::landing(self@.board, col as int) == Some(
                    r as int,
                ),
                None => board::landing(self@.board, col as int) is None,
            },
    {
        board::landing_row(&self.board, col)
    }

    /// Drops a piece of the player in a seat into a column, and judges the board.
    pub fn drop_piece(&mut self, idx: usize, row: usize, col: usize)
        requires
            old(self).wf(),
            idx < 2,
            col < COLS,
            old(self)@.may_move(idx as int),
            board::landing(old(self)@.board, col as int) == Some(row as int),
            old(self)@.moved(idx as int, col as int).fits(),
        ensures
            final(self)@ == old(self)@.moved(idx as int, col as int),
            final(self).wf(),
    {
        let me: u8 = idx as u8 + 1;
        proof {
            board::lemma_landing_exists(self@.board, col as int);
        }
        self.board[row][col] = me;
        self.last_move = Some([row as u8, col as u8]);
        assert(self@ =~~= old(self)@.dropped(idx as int, row as int, col as int));
        if let Some(line) = self.find_win(me) {
            self.phase = Phase::Finished;
            self.winner = me;
            self.win_reason = WinReason::Connect4;
            self.win_line = Some(line);
            self.score[idx] += 1;
        } else if self.full() {
            self.phase = Phase::Finished;
            self.winner = 0;
            self.win_reason = WinReason::Draw;
            self.draws += 1;
        } else {
            self.turn = 3 - self.turn;
        }
        proof {
            laws::law_moved_valid(old(self)@, idx as int, col as int);
        }
    }

    /// Notes that the player in a seat asks for another game, and begins it when both have.
    pub fn ask_rematch(&mut self, idx: usize)
        requires
            old(self).wf(),
            idx < 2,
            old(self)@.taken(idx as int),
            old(self)@.may_rematch(idx as int),
        ensures
            final(self)@ == old(self)@.rematch_asked(idx as int),
            final(self).wf(),
    {
        self.rematch[idx] = true;
        if self.rematch[0] && self.rematch[1] {
            self.reset_board();
            self.starter = 3 - self.starter;
            self.turn = self.starter;
            self.phase = Phase::Playing;
        }
        proof {
            laws::law_rematch_valid(old(self)@, idx as int);
        }
    }

    /// Notes that a connection of the player in a seat was closed.
    pub fn disconnect(&mut self, idx: usize, id: u64)
        requires
            old(self).wf(),
            idx < 2,
        ensures
            final(self)@ == old(self)@.disconnected(idx as int, id as int),
            final(self).wf(),
    {
        if let Some(p) = &mut self.players[idx] {
            let left = ids_without(&p.conns, id);
            p.conns = left;
        }
        proof {
            laws::law_disconnected_valid(old(self)@, idx as int, id as int);
        }
    }

    /// Begins a grace period for the player in a seat, who has until `until` to come back.
    pub fn begin_grace(&mut self, idx: usize, until: i64) -> (gen: u64)
        requires
            old(self).wf(),
            idx < 2,
            old(self)@.away(idx as int),
            old(self)@.phase == Phase::Playing,
            old(self)@.grace_begun(idx as int, until as int).fits(),
        ensures
            gen == old(self)@.grace_gen[idx as int] + 1,
            final(self)@ == old(self)@.grace_begun(idx as int, until as int),
            final(self).wf(),
    {
        assert(self@.grace_begun(idx as int, until as int).grace_gen[idx as int]
            == self.grace_gen[idx as int] + 1);
        self.grace_gen[idx] += 1;
        self.grace_end[idx] = until;
        proof {
            laws::law_grace_begun_valid(old(self)@, idx as int, until as int);
        }
        self.grace_gen[idx]
    }

    /// Whether the end of grace period number `gen` still concerns the player in a seat.
    pub fn grace_counts(&self, idx: usize, gen: u64) -> (counts: bool)
        requires
            idx < 2,
        ensures
            counts == self@.grace_counts(idx as int, gen as int),
    {
        self.grace_gen[idx] == gen && self.is_away(idx)
    }
}

}
