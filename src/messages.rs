use std::collections::HashMap;
use vstd::prelude::*;

verus! {

/// Kind of a request that a coffee maker sends to its local server.
#[derive(Clone, Copy, Debug, PartialEq, Eq, Structural)]
pub enum MessageType {
    AddPoints,
    RequestPoints,
    TakePoints,
    CancelPointsRequest,
}

/// A point operation on an account, as sent by a coffee maker.
#[derive(Clone, Copy, Debug, PartialEq, Eq, Structural)]
pub struct CoffeeMakerRequest {
    pub message_type: MessageType,
    pub account_id: usize,
    pub points: usize,
}

/// Outcome of a point authorization.
#[derive(Clone, Copy, Debug, PartialEq, Eq, Structural)]
pub enum ResponseStatus {
    Approved,
    NotEnoughPoints,
    Failed,
}

/// Answer handed back to a coffee maker.
#[derive(Clone, Copy, Debug, PartialEq, Eq, Structural)]
pub struct CoffeeMakerResponse {
    pub message_type: MessageType,
    pub status: ResponseStatus,
}

/// Pending point requests carried by the token, by account id.
pub type TokenData = HashMap<usize, Vec<CoffeeMakerRequest>>;

/// One account whose balance changed.
#[derive(Clone, Copy, Debug, PartialEq, Eq, Structural)]
pub struct UpdatedAccount {
    pub id: usize,
    pub amount: usize,
    /// Milliseconds since the epoch.
    pub last_updated_on: u64,
}

/// Account changes that a joining or resynchronising peer must apply.
#[derive(Clone, Debug)]
pub struct Diff {
    /// Milliseconds since the epoch.
    pub last_update: u64,
    pub changes: Vec<UpdatedAccount>,
}

/// Payload of a message between peers.
#[derive(Clone, Debug)]
pub enum ServerMessageType {
    NewConnection(Diff),
    CloseConnection,
    Token(TokenData),
    LostConnection(usize),
}

/// Envelope of a message between peers.
#[derive(Clone, Debug)]
pub struct ServerMessage {
    pub message_type: ServerMessageType,
    pub sender_id: usize,
    /// Peers that already relayed this message.
    pub passed_by: Vec<usize>,
}

/// Mathematical model of a payload.
pub enum MessageKind {
    NewConnection(u64, Seq<UpdatedAccount>),
    CloseConnection,
    Token(Map<usize, Seq<CoffeeMakerRequest>>),
    LostConnection(usize),
}

/// Mathematical model of an envelope.
pub struct MessageModel {
    pub kind: MessageKind,
    pub sender_id: usize,
    pub passed_by: Seq<usize>,
}

/// The pending requests of a token, as sequences.
pub open spec fn token_model(t: Map<usize, Vec<CoffeeMakerRequest>>) -> Map<usize, Seq<CoffeeMakerRequest>> {
    t.map_values(|v: Vec<CoffeeMakerRequest>| v@)
}

impl View for ServerMessageType {
    type V = MessageKind;

    open spec fn view(&self) -> MessageKind {
        match self {
            ServerMessageType::NewConnection(d) => MessageKind::NewConnection(d.last_update, d.changes@),
            ServerMessageType::CloseConnection => MessageKind::CloseConnection,
            ServerMessageType::Token(t) => MessageKind::Token(token_model(t@)),
            ServerMessageType::LostConnection(p) => MessageKind::LostConnection(*p),
        }
    }
}

impl View for ServerMessage {
    type V = MessageModel;

    open spec fn view(&self) -> MessageModel {
        MessageModel { kind: self.message_type@, sender_id: self.sender_id, passed_by: self.passed_by@ }
    }
}

impl ServerMessage {
    /// A copy of this message with the same model.
    pub fn duplicate(&self) -> (r: ServerMessage)
        ensures
            r@ == self@,
    {
        let message_type = match &self.message_type {
            ServerMessageType::NewConnection(d) => {
                let changes = d.changes.clone();
                assert(changes@ =~= d.changes@);
                ServerMessageType::NewConnection(Diff { last_update: d.last_update, changes })
            },
            ServerMessageType::CloseConnection => ServerMessageType::CloseConnection,
            ServerMessageType::Token(t) => ServerMessageType::Token(t.clone()),
            ServerMessageType::LostConnection(p) => ServerMessageType::LostConnection(*p),
        };
        let passed_by = self.passed_by.clone();
        assert(passed_by@ =~= self.passed_by@);
        ServerMessage { message_type, sender_id: self.sender_id, passed_by }
    }
}

/// Last-update stamp given to the diff of a fresh join announcement.
pub const INITIAL_DIFF_STAMP_MS: u64 = 1000;

/// A join announcement from `sender_id`, with an empty diff.
pub fn create_new_connection_message(sender_id: usize) -> (r: ServerMessage)
    ensures
        r@.kind == MessageKind::NewConnection(INITIAL_DIFF_STAMP_MS, Seq::<UpdatedAccount>::empty()),
        r@.sender_id == sender_id,
        r@.passed_by == Seq::<usize>::empty(),
{
    let diff = Diff { last_update: INITIAL_DIFF_STAMP_MS, changes: Vec::new() };
    let r = create_server_message(sender_id, ServerMessageType::NewConnection(diff));
    proof {
        assert(r@.kind == MessageKind::NewConnection(INITIAL_DIFF_STAMP_MS, Seq::<UpdatedAccount>::empty()));
    }
    r
}

/// A token with no pending requests, from `sender_id`.
pub fn create_token_message(sender_id: usize) -> (r: ServerMessage)
    ensures
        r@.kind == MessageKind::Token(Map::<usize, Seq<CoffeeMakerRequest>>::empty()),
        r@.sender_id == sender_id,
        r@.passed_by == Seq::<usize>::empty(),
{
    let r = create_server_message(sender_id, ServerMessageType::Token(HashMap::new()));
    proof {
        assert(token_model(Map::<usize, Vec<CoffeeMakerRequest>>::empty()) =~= Map::<usize, Seq<CoffeeMakerRequest>>::empty());
    }
    r
}

/// A notice from `sender_id` that its link to `to_id` broke.
pub fn create_lost_connection_message(sender_id: usize, to_id: usize) -> (r: ServerMessage)
    ensures
        r@.kind == MessageKind::LostConnection(to_id),
        r@.sender_id == sender_id,
        r@.passed_by == Seq::<usize>::empty(),
{
    create_server_message(sender_id, ServerMessageType::LostConnection(to_id))
}

/// An envelope around `message_type` that no peer has relayed yet.
pub fn create_server_message(sender_id: usize, message_type: ServerMessageType) -> (r: ServerMessage)
    ensures
        r@.kind == message_type@,
        r@.sender_id == sender_id,
        r@.passed_by == Seq::<usize>::empty(),
{
    ServerMessage { message_type, sender_id, passed_by: Vec::new() }
}

} // verus!
