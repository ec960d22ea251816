use ring_server::messages::{
    create_token_message, CoffeeMakerRequest, MessageType, ServerMessageType,
};
use ring_server::orders_manager::process_token;
use ring_server::orders_queue::OrdersQueue;
use ring_server::connection_status::ConnectionStatus;
use ring_server::next_connection::{NextAction, NextConnection};

fn req(message_type: MessageType, account_id: usize, points: usize) -> CoffeeMakerRequest {
    CoffeeMakerRequest { message_type, account_id, points }
}

#[test]
fn adding_orders_are_summed_per_account() {
    let mut q = OrdersQueue::new();
    q.add(req(MessageType::AddPoints, 1, 5), 10);
    q.add(req(MessageType::AddPoints, 2, 7), 11);
    q.add(req(MessageType::AddPoints, 1, 3), 12);
    let mut r = q.get_and_clear_adding_orders();
    r.sort_by_key(|o| o.account_id);
    assert_eq!(r, vec![req(MessageType::AddPoints, 1, 8), req(MessageType::AddPoints, 2, 7)]);
    assert!(q.is_empty());
    assert!(q.get_and_clear_adding_orders().is_empty());
}

#[test]
fn single_add_order_is_not_doubled() {
    let mut q = OrdersQueue::new();
    q.add(req(MessageType::AddPoints, 4, 9), 0);
    assert_eq!(q.get_and_clear_adding_orders(), vec![req(MessageType::AddPoints, 4, 9)]);
}

#[test]
fn request_orders_keep_each_request() {
    let mut q = OrdersQueue::new();
    q.add(req(MessageType::RequestPoints, 1, 5), 3);
    q.add(req(MessageType::AddPoints, 1, 2), 3);
    q.add(req(MessageType::RequestPoints, 1, 5), 4);
    let r = q.get_and_clear_request_points_orders();
    assert_eq!(
        r,
        vec![(req(MessageType::RequestPoints, 1, 5), 3), (req(MessageType::RequestPoints, 1, 5), 4)]
    );
    assert!(!q.is_empty());
    assert!(q.get_and_clear_request_points_orders().is_empty());
}

#[test]
fn other_kinds_are_ignored() {
    let mut q = OrdersQueue::new();
    q.add(req(MessageType::TakePoints, 1, 5), 3);
    q.add(req(MessageType::CancelPointsRequest, 1, 5), 3);
    assert!(q.is_empty());
}

#[test]
fn add_total_detects_overflow() {
    let mut q = OrdersQueue::new();
    assert_eq!(q.add_total_after(4), Some(4));
    q.add(req(MessageType::AddPoints, 1, usize::MAX - 1), 0);
    assert_eq!(q.add_total_after(1), Some(usize::MAX));
    assert_eq!(q.add_total_after(2), None);
}

#[test]
fn empty_queue_leaves_token_alone() {
    let mut q = OrdersQueue::new();
    let mut token = create_token_message(2);
    let r = process_token(&mut q, &mut token);
    assert!(r.is_empty());
    assert_eq!(token.sender_id, 2);
    assert!(token.passed_by.is_empty());
    match token.message_type {
        ServerMessageType::Token(t) => assert!(t.is_empty()),
        _ => panic!("not a token"),
    }
}

#[test]
fn token_carries_aggregated_adds() {
    let account = 7;
    let mut q = OrdersQueue::new();
    q.add(req(MessageType::AddPoints, account, 5), 0);
    q.add(req(MessageType::AddPoints, account, 3), 1);
    let mut token = create_token_message(0);
    let r = process_token(&mut q, &mut token);
    assert!(r.is_empty());
    assert!(q.is_empty());
    match token.message_type {
        ServerMessageType::Token(t) => {
            assert_eq!(t.len(), 1);
            assert_eq!(t.get(&account), Some(&vec![req(MessageType::AddPoints, account, 8)]));
        },
        _ => panic!("not a token"),
    }
}

#[test]
fn token_appends_to_pending_requests_and_returns_redemptions() {
    let mut q = OrdersQueue::new();
    q.add(req(MessageType::AddPoints, 1, 2), 0);
    q.add(req(MessageType::RequestPoints, 3, 4), 9);
    let mut token = create_token_message(0);
    if let ServerMessageType::Token(t) = &mut token.message_type {
        t.insert(1, vec![req(MessageType::AddPoints, 1, 6)]);
        t.insert(5, vec![req(MessageType::AddPoints, 5, 1)]);
    }
    let r = process_token(&mut q, &mut token);
    assert_eq!(r, vec![(req(MessageType::RequestPoints, 3, 4), 9)]);
    match token.message_type {
        ServerMessageType::Token(t) => {
            assert_eq!(t.len(), 2);
            assert_eq!(
                t.get(&1),
                Some(&vec![req(MessageType::AddPoints, 1, 6), req(MessageType::AddPoints, 1, 2)])
            );
            assert_eq!(t.get(&5), Some(&vec![req(MessageType::AddPoints, 5, 1)]));
        },
        _ => panic!("not a token"),
    }
}

#[test]
fn default_queue_is_empty() {
    assert!(OrdersQueue::default().is_empty());
}

#[test]
fn three_peer_ring_forwards_aggregated_token() {
    let account = 11;
    let mut link = NextConnection::new(1, 3);
    assert_eq!(link.candidates(), vec![2, 0]);
    let mut status = ConnectionStatus::new();
    status.set_prev_online();
    link.on_connected(2, &mut status);
    let mut q = OrdersQueue::new();
    q.add(req(MessageType::AddPoints, account, 5), 0);
    q.add(req(MessageType::AddPoints, account, 3), 0);
    let mut token = create_token_message(0);
    assert!(process_token(&mut q, &mut token).is_empty());
    match link.handle_message_to_next(token, &mut status) {
        NextAction::Send(m) => match m.message_type {
            ServerMessageType::Token(t) => {
                assert_eq!(t.len(), 1);
                assert_eq!(t.get(&account), Some(&vec![req(MessageType::AddPoints, account, 8)]));
            },
            _ => panic!("not a token"),
        },
        _ => panic!("token not forwarded"),
    }
    assert!(status.is_online());
}
