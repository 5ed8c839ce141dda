use axum::http::{HeaderMap, HeaderValue};
use connect4::game::{Delivery, Game};
use connect4::model::Phase;
use connect4::server::{
    can_expire, can_let_in, can_move, can_start_grace, conn_lost, events, grace_expired, play_move,
    rematch, start, start_grace, Admission, Loss, MoveReq, Reply,
};

fn session(sid: &str) -> HeaderMap {
    let mut map = HeaderMap::new();
    map.insert("x-session", HeaderValue::from_str(sid).unwrap());
    map
}

fn visit(game: &mut Game, sid: &str, ip: &str) -> Option<(usize, u64, Vec<Delivery>)> {
    let params = vec![("session".to_string(), sid.to_string())];
    assert!(can_let_in(game, &params));
    match events(game, &params, &HeaderMap::new(), ip) {
        Ok(Admission::Seated { idx, conn_id, deliveries }) => Some((idx, conn_id, deliveries)),
        Ok(Admission::Busy) => None,
        Err(_) => panic!("refused"),
    }
}

fn drop_into(game: &mut Game, sid: &str, col: usize) -> Reply {
    play_move(game, &session(sid), MoveReq { col }).unwrap()
}

fn pair() -> Game {
    let mut game = Game::new();
    visit(&mut game, "a", "1.1.1.1").unwrap();
    visit(&mut game, "b", "2.2.2.2").unwrap();
    game
}

fn playing() -> Game {
    let mut game = pair();
    assert_eq!(start(&mut game, &session("a")).status, 200);
    game
}

fn play(game: &mut Game, first: &str, second: &str, cols: &[usize]) {
    for (i, &col) in cols.iter().enumerate() {
        let who = if i % 2 == 0 { first } else { second };
        let reply = drop_into(game, who, col);
        assert_eq!((reply.status, reply.text), (200, ""));
    }
}

#[test]
fn two_visitors_make_a_pair() {
    let mut game = Game::new();
    assert_eq!(game.phase(), Phase::Waiting);
    let (idx, id, sent) = visit(&mut game, "a", "1.1.1.1").unwrap();
    assert_eq!((idx, id), (0, 1));
    assert_eq!(sent.len(), 1);
    assert_eq!(sent[0].conns, vec![1]);
    assert_eq!(sent[0].state.phase, "waiting");
    assert_eq!(sent[0].state.you, 1);
    assert_eq!(sent[0].state.your_ip, "1.1.1.1");
    assert_eq!(sent[0].state.opp_ip, "");
    assert!(!sent[0].state.opp_online);

    let (idx, id, sent) = visit(&mut game, "b", "2.2.2.2").unwrap();
    assert_eq!((idx, id), (1, 2));
    assert_eq!(sent.len(), 2);
    assert_eq!(sent[0].conns, vec![1]);
    assert_eq!(sent[1].conns, vec![2]);
    assert_eq!(sent[1].state.phase, "ready");
    assert_eq!(sent[1].state.you, 2);
    assert_eq!(sent[1].state.your_ip, "2.2.2.2");
    assert_eq!(sent[1].state.opp_ip, "1.1.1.1");
    assert!(sent[1].state.opp_online);
    assert_eq!(game.player_index("b"), Some(1));
    assert_eq!(game.player_index("c"), None);
}

#[test]
fn a_third_visitor_finds_the_table_taken() {
    let mut game = pair();
    assert!(visit(&mut game, "c", "3.3.3.3").is_none());
    assert_eq!(game.phase(), Phase::Ready);
    assert_eq!(game.player_index("c"), None);
}

#[test]
fn a_visitor_without_a_session_is_refused() {
    let mut game = Game::new();
    match events(&mut game, &vec![], &HeaderMap::new(), "1.1.1.1") {
        Err(refusal) => assert_eq!((refusal.status, refusal.text), (400, "missing session")),
        Ok(_) => panic!("let in"),
    }
    assert_eq!(game.player_index(""), None);
}

#[test]
fn a_second_tab_keeps_the_seat_and_the_name() {
    let mut game = pair();
    let (idx, id, sent) = visit(&mut game, "a", "7.7.7.7").unwrap();
    assert_eq!((idx, id), (0, 3));
    assert_eq!(sent[0].conns, vec![1, 3]);
    assert_eq!(sent[0].state.your_ip, "1.1.1.1");
}

#[test]
fn the_proxy_names_the_player() {
    let mut game = Game::new();
    let params = vec![("session".to_string(), "a".to_string())];
    let mut headers = HeaderMap::new();
    headers.insert("x-real-ip", HeaderValue::from_static("5.6.7.8"));
    match events(&mut game, &params, &headers, "127.0.0.1") {
        Ok(Admission::Seated { deliveries, .. }) => {
            assert_eq!(deliveries[0].state.your_ip, "5.6.7.8")
        }
        _ => panic!("not let in"),
    }
}

#[test]
fn starting_needs_a_pair() {
    let mut game = Game::new();
    visit(&mut game, "a", "1.1.1.1");
    let reply = start(&mut game, &session("a"));
    assert_eq!((reply.status, reply.text), (409, "cannot start"));
    assert!(reply.deliveries.is_empty());

    let mut game = pair();
    let reply = start(&mut game, &HeaderMap::new());
    assert_eq!((reply.status, reply.text), (400, "missing session"));
    let reply = start(&mut game, &session("c"));
    assert_eq!((reply.status, reply.text), (409, "cannot start"));
    let reply = start(&mut game, &session("b"));
    assert_eq!((reply.status, reply.text), (200, ""));
    assert_eq!(reply.deliveries.len(), 2);
    assert_eq!(reply.deliveries[0].state.phase, "playing");
    assert_eq!(reply.deliveries[0].state.turn, 1);
    let reply = start(&mut game, &session("a"));
    assert_eq!((reply.status, reply.text), (409, "cannot start"));
}

#[test]
fn moves_are_refused_for_a_reason() {
    let mut game = pair();
    let reply = drop_into(&mut game, "a", 0);
    assert_eq!((reply.status, reply.text), (409, "not your turn"));

    let mut game = playing();
    let reply = play_move(&mut game, &HeaderMap::new(), MoveReq { col: 9 }).unwrap();
    assert_eq!((reply.status, reply.text), (400, "missing session"));
    let reply = drop_into(&mut game, "a", 7);
    assert_eq!((reply.status, reply.text), (400, "bad move"));
    let reply = drop_into(&mut game, "c", 7);
    assert_eq!((reply.status, reply.text), (400, "bad move"));
    let reply = drop_into(&mut game, "c", 0);
    assert_eq!((reply.status, reply.text), (409, "not your turn"));
    let reply = drop_into(&mut game, "b", 0);
    assert_eq!((reply.status, reply.text), (409, "not your turn"));
    assert!(reply.deliveries.is_empty());
}

#[test]
fn a_move_drops_a_piece_and_passes_the_turn() {
    let mut game = playing();
    let reply = drop_into(&mut game, "a", 3);
    let state = &reply.deliveries[1].state;
    assert_eq!(state.board[5][3], 1);
    assert_eq!(state.last_move, Some([5, 3]));
    assert_eq!(state.turn, 2);
    assert_eq!(state.board.iter().flatten().filter(|&&c| c != 0).count(), 1);
    let reply = drop_into(&mut game, "b", 3);
    assert_eq!(reply.deliveries[0].state.board[4][3], 2);
    assert_eq!(reply.deliveries[0].state.turn, 1);
}

#[test]
fn a_full_column_takes_nothing() {
    let mut game = playing();
    play(&mut game, "a", "b", &[2, 2, 2, 2, 2, 2]);
    let reply = drop_into(&mut game, "a", 2);
    assert_eq!((reply.status, reply.text), (409, "column full"));
    assert_eq!(drop_into(&mut game, "a", 3).status, 200);
}

#[test]
fn four_in_a_row_win() {
    let mut game = playing();
    play(&mut game, "a", "b", &[0, 1, 0, 1, 0, 1]);
    assert!(game.find_win(1).is_none());
    let reply = drop_into(&mut game, "a", 0);
    assert_eq!(reply.status, 200);
    let state = &reply.deliveries[1].state;
    assert_eq!(state.phase, "finished");
    assert_eq!(state.winner, 1);
    assert_eq!(state.win_reason, "connect4");
    assert_eq!(state.win_line, Some([[2, 0], [3, 0], [4, 0], [5, 0]]));
    assert_eq!(state.last_move, Some([2, 0]));
    assert_eq!((state.score_you, state.score_opp, state.draws), (0, 1, 0));
    assert_eq!(game.find_win(1), Some([[2, 0], [3, 0], [4, 0], [5, 0]]));
    assert_eq!(drop_into(&mut game, "b", 4).text, "not your turn");
}

#[test]
fn a_full_board_is_a_draw() {
    let mut game = playing();
    let cols = [
        5, 4, 5, 0, 6, 2, 4, 5, 5, 0, 4, 1, 1, 0, 4, 5, 6, 5, 3, 1, 1, 2, 2, 6, 2, 6, 6, 3, 6, 2, 0,
        3, 0, 3, 3, 4, 3, 1, 4, 2, 1,
    ];
    play(&mut game, "a", "b", &cols);
    assert!(!game.full());
    let reply = drop_into(&mut game, "b", 0);
    assert!(game.full());
    let state = &reply.deliveries[0].state;
    assert_eq!(state.phase, "finished");
    assert_eq!(state.winner, 0);
    assert_eq!(state.win_reason, "draw");
    assert_eq!(state.win_line, None);
    assert_eq!((state.score_you, state.score_opp, state.draws), (0, 0, 1));
}

#[test]
fn another_game_needs_both_and_changes_the_starter() {
    let mut game = playing();
    let reply = rematch(&mut game, &session("a"));
    assert_eq!((reply.status, reply.text), (409, "cannot rematch"));
    play(&mut game, "a", "b", &[0, 1, 0, 1, 0, 1, 0]);

    let reply = rematch(&mut game, &HeaderMap::new());
    assert_eq!((reply.status, reply.text), (400, "missing session"));
    let reply = rematch(&mut game, &session("c"));
    assert_eq!((reply.status, reply.text), (409, "cannot rematch"));

    let reply = rematch(&mut game, &session("a"));
    assert_eq!((reply.status, reply.text), (200, ""));
    assert_eq!(reply.deliveries[0].state.phase, "finished");
    assert!(reply.deliveries[0].state.rematch_you);
    assert!(reply.deliveries[1].state.rematch_opp);
    let reply = rematch(&mut game, &session("a"));
    assert_eq!(reply.deliveries[0].state.phase, "finished");

    let reply = rematch(&mut game, &session("b"));
    let state = &reply.deliveries[0].state;
    assert_eq!(state.phase, "playing");
    assert_eq!(state.turn, 2);
    assert_eq!(state.board, [[0; 7]; 6]);
    assert_eq!(state.win_line, None);
    assert!(!state.rematch_you && !state.rematch_opp);
    assert_eq!((state.score_you, state.score_opp), (1, 0));
    assert_eq!(drop_into(&mut game, "a", 0).text, "not your turn");
    play(&mut game, "b", "a", &[6, 5, 6, 5, 6, 5, 6]);
    rematch(&mut game, &session("b"));
    let reply = rematch(&mut game, &session("a"));
    assert_eq!(reply.deliveries[0].state.turn, 1);
    assert_eq!((reply.deliveries[0].state.score_you, reply.deliveries[0].state.score_opp), (1, 1));
}

#[test]
fn leaving_outside_of_a_game_frees_the_seat() {
    let mut game = pair();
    game.disconnect(0, 1);
    assert!(game.is_away(0));
    match conn_lost(&mut game, 0) {
        Loss::Left(sent) => {
            assert_eq!(sent.len(), 1);
            assert_eq!(sent[0].conns, vec![2]);
            assert_eq!(sent[0].state.phase, "waiting");
            assert_eq!(sent[0].state.opp_ip, "");
        }
        _ => panic!("still there"),
    }
    assert_eq!(game.player_index("a"), None);
    let (idx, _, _) = visit(&mut game, "c", "3.3.3.3").unwrap();
    assert_eq!(idx, 0);
    assert_eq!(game.phase(), Phase::Ready);
}

#[test]
fn leaving_after_a_game_forgets_the_score() {
    let mut game = playing();
    play(&mut game, "a", "b", &[0, 1, 0, 1, 0, 1, 0]);
    game.disconnect(1, 2);
    match conn_lost(&mut game, 1) {
        Loss::Left(sent) => {
            assert_eq!(sent[0].state.phase, "waiting");
            assert_eq!((sent[0].state.score_you, sent[0].state.score_opp), (0, 0));
            assert_eq!(sent[0].state.board, [[0; 7]; 6]);
        }
        _ => panic!("still there"),
    }
}

#[test]
fn another_connection_keeps_the_seat() {
    let mut game = pair();
    visit(&mut game, "a", "1.1.1.1").unwrap();
    game.disconnect(0, 1);
    assert!(matches!(conn_lost(&mut game, 0), Loss::Ignored));
    assert_eq!(game.player_index("a"), Some(0));
    game.disconnect(0, 99);
    assert!(!game.is_away(0));
}

#[test]
fn coming_back_in_time_saves_the_game() {
    let mut game = playing();
    drop_into(&mut game, "a", 3);
    game.disconnect(0, 1);
    assert!(matches!(conn_lost(&mut game, 0), Loss::Grace));
    assert!(can_start_grace(&game, 0, 1_000, 60));
    let grace = start_grace(&mut game, 0, 1_000, 60);
    assert_eq!(grace.deliveries[1].state.grace_end, 1_060);
    assert!(!grace.deliveries[1].state.opp_online);
    assert_eq!(grace.deliveries[0].conns, Vec::<u64>::new());

    let (idx, id, sent) = visit(&mut game, "a", "8.8.8.8").unwrap();
    assert_eq!((idx, id), (0, 3));
    assert_eq!(sent[1].state.grace_end, 0);
    assert!(sent[1].state.opp_online);
    assert_eq!(sent[0].state.board[5][3], 1);
    assert_eq!(sent[0].state.turn, 2);

    game.disconnect(0, id);
    assert!(grace_expired(&mut game, 0, grace.gen).is_none());
    assert_eq!(game.phase(), Phase::Playing);
}

#[test]
fn staying_away_loses_the_game() {
    let mut game = playing();
    game.disconnect(1, 2);
    assert!(matches!(conn_lost(&mut game, 1), Loss::Grace));
    let grace = start_grace(&mut game, 1, 1_000, 60);
    assert!(can_expire(&game, 1, grace.gen));
    let sent = grace_expired(&mut game, 1, grace.gen).unwrap();
    assert_eq!(sent.len(), 1);
    let state = &sent[0].state;
    assert_eq!(state.phase, "finished");
    assert_eq!(state.winner, 1);
    assert_eq!(state.win_reason, "forfeit");
    assert_eq!((state.score_you, state.score_opp), (1, 0));
    assert_eq!(state.grace_end, 0);
    assert_eq!(state.opp_ip, "");
    let reply = rematch(&mut game, &session("a"));
    assert_eq!((reply.status, reply.text), (409, "cannot rematch"));

    let (idx, _, sent) = visit(&mut game, "c", "3.3.3.3").unwrap();
    assert_eq!(idx, 1);
    assert_eq!(sent[0].state.phase, "ready");
    assert_eq!((sent[0].state.score_you, sent[0].state.winner), (0, 0));
}

#[test]
fn a_grace_period_that_outlives_the_game_frees_the_seat() {
    let mut game = playing();
    play(&mut game, "a", "b", &[0, 1, 0, 1, 0, 1]);
    game.disconnect(1, 2);
    let grace = start_grace(&mut game, 1, 1_000, 60);
    drop_into(&mut game, "a", 0);
    assert_eq!(game.phase(), Phase::Finished);
    let sent = grace_expired(&mut game, 1, grace.gen).unwrap();
    assert_eq!(sent[0].state.phase, "waiting");
    assert_eq!(game.player_index("b"), None);
}

#[test]
fn a_later_grace_period_replaces_an_earlier_one() {
    let mut game = playing();
    game.disconnect(0, 1);
    let first = start_grace(&mut game, 0, 1_000, 60);
    let second = start_grace(&mut game, 0, 1_010, 60);
    assert_ne!(first.gen, second.gen);
    assert!(grace_expired(&mut game, 0, first.gen).is_none());
    assert!(grace_expired(&mut game, 0, second.gen).is_some());
}

#[test]
fn a_grace_period_needs_an_end() {
    let game = playing();
    assert!(!can_start_grace(&game, 0, i64::MAX, 1));
    assert!(can_start_grace(&game, 0, 1_000, 60));
}

#[test]
fn a_move_can_be_counted_early_on() {
    let game = playing();
    assert!(can_move(&game, &Some("a".to_string()), 0));
    assert!(can_move(&game, &None, 0));
}

#[test]
fn both_players_are_told_of_the_same_game() {
    let mut game = playing();
    let reply = drop_into(&mut game, "a", 6);
    let (a, b) = (&reply.deliveries[0].state, &reply.deliveries[1].state);
    assert_eq!(a.board, b.board);
    assert_eq!(a.turn, b.turn);
    assert_eq!((a.you, b.you), (1, 2));
    assert_eq!(a.your_ip, b.opp_ip);
    assert_eq!(a.opp_ip, b.your_ip);
    let state = game.state_for(1);
    assert_eq!(state.last_move, Some([5, 6]));
    assert_eq!(game.broadcast().len(), 2);
}
