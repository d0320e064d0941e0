use chess_relay::channel::ReadOutcome;
use chess_relay::codec::{Move, MoveFormat};
use chess_relay::lobby::Lobby;
use chess_relay::peer::{ClientAction, ClientError, PeerClient};
use chess_relay::relay::{Match, RelayAction};
use chess_relay::side::Side;

fn client(greeting: &[u8]) -> PeerClient {
    PeerClient::from_greeting(MoveFormat::chess(), greeting).unwrap()
}

#[test]
fn greeting_sets_side() {
    let a = client(b"first ");
    assert_eq!(a.side(), Side::First);
    assert_eq!(a.turn(), Side::First);
    assert!(a.is_my_turn());
    assert_eq!(a.next_action(), ClientAction::AwaitLocalMove);
    let b = client(b"second");
    assert_eq!(b.side(), Side::Second);
    assert!(!b.is_my_turn());
    assert_eq!(b.next_action(), ClientAction::ReadRemote { len: 5 });
}

#[test]
fn bad_greeting_is_refused() {
    assert_eq!(
        PeerClient::from_greeting(MoveFormat::chess(), b"black").err(),
        Some(ClientError::BadGreeting)
    );
}

#[test]
fn legal_local_move_is_sent_and_passes_turn() {
    let mut a = client(b"first ");
    let sent = a.local_move(Move { from: 12, to: 28 }, true);
    assert_eq!(sent, Some(b"12 28".to_vec()));
    assert_eq!(a.turn(), Side::Second);
    assert_eq!(a.next_action(), ClientAction::ReadRemote { len: 5 });
}

#[test]
fn rejected_local_move_stays_local() {
    let mut a = client(b"first ");
    assert_eq!(a.local_move(Move { from: 12, to: 29 }, false), None);
    assert_eq!(a.turn(), Side::First);
    assert!(a.is_open());
    assert_eq!(a.local_move(Move { from: 12, to: 64 }, true), None);
    assert_eq!(a.turn(), Side::First);
}

#[test]
fn local_move_precheck() {
    let a = client(b"first ");
    assert!(a.accepts_local(Move { from: 12, to: 28 }));
    assert!(!a.accepts_local(Move { from: 64, to: 28 }));
    assert!(!a.accepts_local(Move { from: 12, to: 64 }));
    let b = client(b"second");
    assert!(!b.accepts_local(Move { from: 52, to: 36 }));
}

#[test]
fn local_move_out_of_turn_is_not_sent() {
    let mut b = client(b"second");
    assert_eq!(b.local_move(Move { from: 52, to: 36 }, true), None);
    assert_eq!(b.turn(), Side::First);
}

#[test]
fn remote_move_is_decoded_and_returns_turn() {
    let mut b = client(b"second");
    let got = b.on_remote(ReadOutcome::Bytes(b"12 28".to_vec()));
    assert_eq!(got, Ok(Move { from: 12, to: 28 }));
    assert!(b.is_my_turn());
    assert!(b.is_open());
}

#[test]
fn malformed_remote_move_ends_session() {
    let mut b = client(b"second");
    assert_eq!(b.on_remote(ReadOutcome::Bytes(b"1x 28".to_vec())), Err(ClientError::Malformed));
    assert!(!b.is_open());
    assert_eq!(b.next_action(), ClientAction::Finished);
    assert_eq!(b.on_remote(ReadOutcome::Bytes(b"12 28".to_vec())), Err(ClientError::Closed));
}

#[test]
fn short_remote_read_ends_session() {
    let mut b = client(b"second");
    assert_eq!(b.on_remote(ReadOutcome::Bytes(b"12 2".to_vec())), Err(ClientError::Malformed));
    assert!(!b.is_open());
}

#[test]
fn closed_channel_ends_session() {
    let mut b = client(b"second");
    assert_eq!(b.on_remote(ReadOutcome::Closed), Err(ClientError::Disconnected));
    assert!(!b.is_open());
}

#[test]
fn failure_notice_reports_opponent_gone() {
    let mut b = client(b"second");
    assert_eq!(b.on_remote(ReadOutcome::Bytes(b"#####".to_vec())), Err(ClientError::OpponentLeft));
    assert!(!b.is_open());
}

#[test]
fn remote_move_on_own_turn_is_a_violation() {
    let mut a = client(b"first ");
    assert_eq!(a.on_remote(ReadOutcome::Bytes(b"52 36".to_vec())), Err(ClientError::OutOfTurn));
    assert!(!a.is_open());
}

#[test]
fn end_to_end_two_moves() {
    let format = MoveFormat::chess();
    let mut lobby = Lobby::new();
    let ga = lobby.connect(1);
    let gb = lobby.connect(2);
    assert_eq!(ga.token, b"first ".to_vec());
    assert_eq!(gb.token, b"second".to_vec());
    assert_eq!(gb.partner, Some(1));
    let mut a = PeerClient::from_greeting(MoveFormat::chess(), &ga.token).unwrap();
    let mut b = PeerClient::from_greeting(MoveFormat::chess(), &gb.token).unwrap();
    assert_eq!(a.side(), Side::First);
    assert_eq!(b.side(), Side::Second);
    let mut relay = Match::new(format);

    // A moves 12 -> 28.
    let sent = a.local_move(Move { from: 12, to: 28 }, true).unwrap();
    assert_eq!(sent, b"12 28".to_vec());
    match relay.next_action() {
        RelayAction::Read { from, len } => {
            assert_eq!(from, Side::First);
            assert_eq!(len, sent.len());
        }
        other => panic!("unexpected {:?}", other),
    }
    let forwarded = match relay.on_read(ReadOutcome::Bytes(sent.clone())) {
        RelayAction::Forward { to, payload } => {
            assert_eq!(to, Side::Second);
            payload
        }
        other => panic!("unexpected {:?}", other),
    };
    assert_eq!(forwarded, b"12 28".to_vec());
    relay.on_forwarded();
    assert_eq!(relay.next_expected_side(), Side::Second);
    assert_eq!(b.on_remote(ReadOutcome::Bytes(forwarded)), Ok(Move { from: 12, to: 28 }));

    // B moves 52 -> 36.
    let sent = b.local_move(Move { from: 52, to: 36 }, true).unwrap();
    assert_eq!(sent, b"52 36".to_vec());
    let forwarded = match relay.on_read(ReadOutcome::Bytes(sent)) {
        RelayAction::Forward { to, payload } => {
            assert_eq!(to, Side::First);
            payload
        }
        other => panic!("unexpected {:?}", other),
    };
    assert_eq!(forwarded, b"52 36".to_vec());
    relay.on_forwarded();
    assert_eq!(relay.next_expected_side(), Side::First);
    assert_eq!(a.on_remote(ReadOutcome::Bytes(forwarded)), Ok(Move { from: 52, to: 36 }));
    assert!(a.is_my_turn());
    assert!(!b.is_my_turn());
}

#[test]
fn disconnect_reaches_the_other_peer() {
    let mut a = client(b"first ");
    let mut b = client(b"second");
    let mut relay = Match::new(MoveFormat::chess());
    let sent = a.local_move(Move { from: 12, to: 28 }, true).unwrap();
    let forwarded = match relay.on_read(ReadOutcome::Bytes(sent)) {
        RelayAction::Forward { payload, .. } => payload,
        other => panic!("unexpected {:?}", other),
    };
    relay.on_forwarded();
    b.on_remote(ReadOutcome::Bytes(forwarded)).unwrap();
    // The relay now reads from B, whose channel closes.
    let notice = match relay.on_read(ReadOutcome::Closed) {
        RelayAction::Terminate { failed, notice, .. } => {
            assert_eq!(failed, Side::Second);
            notice
        }
        other => panic!("unexpected {:?}", other),
    };
    assert_eq!(a.on_remote(ReadOutcome::Bytes(notice)), Err(ClientError::OpponentLeft));
    assert_eq!(a.next_action(), ClientAction::Finished);
}
