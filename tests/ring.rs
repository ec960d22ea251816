use ring_server::backoff::{
    next_delay, INITIAL_WAIT_IN_MS_FOR_CONNECTION_ATTEMPT, MAX_WAIT_IN_MS_FOR_CONNECTION_ATTEMPT,
};
use ring_server::connection_status::ConnectionStatus;
use ring_server::messages::{
    create_lost_connection_message, create_new_connection_message, create_server_message,
    create_token_message, CoffeeMakerRequest, Diff, MessageType, ServerMessageType,
};
use ring_server::next_connection::{NextAction, NextConnection};

fn online_status() -> ConnectionStatus {
    let mut s = ConnectionStatus::new();
    s.set_prev_online();
    s.set_next_online();
    s
}

#[test]
fn constructors_start_unrelayed() {
    let m = create_new_connection_message(3);
    assert_eq!(m.sender_id, 3);
    assert!(m.passed_by.is_empty());
    match m.message_type {
        ServerMessageType::NewConnection(d) => {
            assert_eq!(d.last_update, 1000);
            assert!(d.changes.is_empty());
        },
        _ => panic!("wrong kind"),
    }
    let l = create_lost_connection_message(1, 2);
    assert!(matches!(l.message_type, ServerMessageType::LostConnection(2)));
    assert_eq!(l.sender_id, 1);
    let c = create_server_message(4, ServerMessageType::CloseConnection);
    assert!(matches!(c.message_type, ServerMessageType::CloseConnection));
}

#[test]
fn backoff_doubles_then_starts_over() {
    let mut d = INITIAL_WAIT_IN_MS_FOR_CONNECTION_ATTEMPT;
    let mut seen = vec![d];
    for _ in 0..8 {
        d = next_delay(d);
        seen.push(d);
    }
    assert_eq!(seen, vec![100, 200, 400, 800, 1600, 3200, 100, 200, 400]);
    assert!(seen.iter().all(|d| *d < MAX_WAIT_IN_MS_FOR_CONNECTION_ATTEMPT));
    assert_eq!(next_delay(2499), 4998);
    assert_eq!(next_delay(2500), 100);
}

#[test]
fn status_is_online_only_with_both_links() {
    let mut s = ConnectionStatus::new();
    assert!(!s.is_online());
    s.set_prev_online();
    assert!(!s.is_online());
    s.set_next_online();
    assert!(s.is_online());
    s.set_next_offline();
    assert!(!s.is_online() && s.is_prev_online() && !s.is_next_online());
    s.set_prev_offline();
    assert!(!s.is_prev_online());
}

#[test]
fn candidates_go_up_then_wrap() {
    assert_eq!(NextConnection::new(2, 5).candidates(), vec![3, 4, 0, 1]);
    assert_eq!(NextConnection::new(4, 5).candidates(), vec![0, 1, 2, 3]);
    assert_eq!(NextConnection::new(0, 3).candidates(), vec![1, 2, 0]);
    assert_eq!(NextConnection::new(1, 3).candidates(), vec![2, 0]);
}

#[test]
fn peer_zero_closes_on_itself_only_once() {
    let mut link = NextConnection::new(0, 3);
    let mut s = ConnectionStatus::new();
    link.on_connect_failed(&mut s);
    assert!(!s.is_next_online());
    assert_eq!(link.candidates(), vec![1, 2]);
}

#[test]
fn single_peer_ring_circulates_token() {
    let mut link = NextConnection::new(0, 1);
    let mut s = ConnectionStatus::new();
    assert_eq!(link.candidates(), vec![0]);
    let out = link.on_connected(0, &mut s);
    assert_eq!(out.len(), 1);
    assert!(matches!(out[0].message_type, ServerMessageType::NewConnection(_)));
    assert!(s.is_next_online());
    s.set_prev_online();
    match link.handle_message_to_next(create_token_message(0), &mut s) {
        NextAction::Send(m) => match m.message_type {
            ServerMessageType::Token(t) => assert!(t.is_empty()),
            _ => panic!("not a token"),
        },
        _ => panic!("token not sent"),
    }
    assert!(s.is_online());
}

#[test]
fn token_is_resent_after_link_drops() {
    let mut link = NextConnection::new(1, 3);
    let mut s = online_status();
    link.on_connected(2, &mut s);
    let mut token = create_token_message(0);
    if let ServerMessageType::Token(t) = &mut token.message_type {
        t.insert(9, vec![CoffeeMakerRequest { message_type: MessageType::AddPoints, account_id: 9, points: 8 }]);
    }
    let sent = match link.handle_message_to_next(token, &mut s) {
        NextAction::Send(m) => m,
        _ => panic!("token not sent"),
    };
    link.on_send_failed(&mut s, true);
    assert!(!s.is_online());
    link.on_connect_failed(&mut s);
    let out = link.on_connected(0, &mut s);
    assert_eq!(out.len(), 2);
    assert!(matches!(out[0].message_type, ServerMessageType::NewConnection(_)));
    match (&out[1].message_type, &sent.message_type) {
        (ServerMessageType::Token(a), ServerMessageType::Token(b)) => {
            assert_eq!(a, b);
            assert_eq!(a.get(&9).map(|v| v.len()), Some(1));
        },
        _ => panic!("not a token"),
    }
    assert_eq!(link.on_connected(0, &mut s).len(), 1);
}

#[test]
fn failed_send_of_other_message_owes_nothing() {
    let mut link = NextConnection::new(1, 3);
    let mut s = online_status();
    link.on_connected(2, &mut s);
    link.on_send_failed(&mut s, true);
    assert_eq!(link.on_connected(2, &mut s).len(), 1);
}

#[test]
fn lost_link_to_next_owes_last_token() {
    let mut link = NextConnection::new(0, 3);
    let mut s = online_status();
    link.on_connected(1, &mut s);
    link.handle_message_to_next(create_token_message(2), &mut s);
    let action = link.handle_message_to_next(create_lost_connection_message(2, 1), &mut s);
    assert!(matches!(action, NextAction::Reconnect));
    assert!(!s.is_next_online());
    let out = link.on_connected(2, &mut s);
    assert_eq!(out.len(), 2);
    assert_eq!(out[1].sender_id, 2);
}

#[test]
fn lost_link_elsewhere_is_relayed_once() {
    let mut link = NextConnection::new(0, 4);
    let mut s = online_status();
    link.on_connected(1, &mut s);
    let relayed = match link.handle_message_to_next(create_lost_connection_message(2, 3), &mut s) {
        NextAction::Send(m) => m,
        _ => panic!("not relayed"),
    };
    assert_eq!(relayed.passed_by, vec![0]);
    assert!(s.is_online());
    let again = link.handle_message_to_next(relayed, &mut s);
    assert!(matches!(again, NextAction::Discard));
}

#[test]
fn new_peer_between_is_spliced_in() {
    let mut link = NextConnection::new(1, 5);
    let mut s = online_status();
    link.on_connected(4, &mut s);
    let mut m = create_new_connection_message(3);
    if let ServerMessageType::NewConnection(d) = &mut m.message_type {
        *d = Diff { last_update: 77, changes: vec![] };
    }
    match link.handle_message_to_next(m, &mut s) {
        NextAction::Splice(p, d) => {
            assert_eq!(p, 3);
            assert_eq!(d.last_update, 77);
        },
        _ => panic!("not spliced"),
    }
}

#[test]
fn new_peer_elsewhere_is_relayed_until_lap() {
    let mut link = NextConnection::new(3, 5);
    let mut s = online_status();
    link.on_connected(4, &mut s);
    let relayed = match link.handle_message_to_next(create_new_connection_message(1), &mut s) {
        NextAction::Send(m) => m,
        _ => panic!("not relayed"),
    };
    assert_eq!(relayed.passed_by, vec![3]);
    assert!(matches!(link.handle_message_to_next(relayed, &mut s), NextAction::Discard));
}

#[test]
fn new_peer_wrapping_around_is_between() {
    let mut link = NextConnection::new(3, 5);
    let mut s = online_status();
    link.on_connected(1, &mut s);
    assert!(matches!(
        link.handle_message_to_next(create_new_connection_message(0), &mut s),
        NextAction::Splice(0, _)
    ));
    assert!(matches!(
        link.handle_message_to_next(create_new_connection_message(4), &mut s),
        NextAction::Splice(4, _)
    ));
    assert!(matches!(
        link.handle_message_to_next(create_new_connection_message(2), &mut s),
        NextAction::Send(_)
    ));
}

#[test]
fn close_connection_is_discarded() {
    let mut link = NextConnection::new(0, 2);
    let mut s = online_status();
    let m = create_server_message(1, ServerMessageType::CloseConnection);
    assert!(matches!(link.handle_message_to_next(m, &mut s), NextAction::Discard));
}

#[test]
fn timeout_without_previous_peer_drops_link() {
    let mut link = NextConnection::new(0, 2);
    let mut s = ConnectionStatus::new();
    link.on_connected(1, &mut s);
    assert!(link.handle_timeout(&mut s));
    assert!(!s.is_next_online());
    let mut s = online_status();
    assert!(!link.handle_timeout(&mut s));
    assert!(s.is_next_online());
}
