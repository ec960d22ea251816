use crate::connection_status::ConnectionStatus;
use crate::messages::{
    create_new_connection_message, Diff, MessageKind, MessageModel, ServerMessage,
    ServerMessageType, INITIAL_DIFF_STAMP_MS,
};
use vstd::prelude::*;

verus! {

/// Peer ids in the order in which `id` tries them as its next peer: those above
/// it, ascending, then those below it, ascending; peer 0 ends with itself on
/// its very first bootstrap.
pub open spec fn scan_order(id: usize, peer_count: usize, initial: bool) -> Seq<usize> {
    Seq::new((peer_count - id - 1) as nat, |i: int| (id + 1 + i) as usize) + Seq::new(
        id as nat,
        |i: int| i as usize,
    ) + if id == 0 && initial {
        seq![0usize]
    } else {
        Seq::<usize>::empty()
    }
}

/// Steps forward around a ring of `peer_count` peers from `from` to `to`; a
/// full lap when they are the same peer.
pub open spec fn ring_gap(from: usize, to: usize, peer_count: usize) -> int {
    if to > from {
        to - from
    } else {
        to + peer_count - from
    }
}

/// `peer` sits on the ring after `id` and before `next`.
pub open spec fn lies_between(id: usize, peer: usize, next: usize, peer_count: usize) -> bool {
    &&& peer < peer_count
    &&& peer != id
    &&& ring_gap(id, peer, peer_count) < ring_gap(id, next, peer_count)
}

/// In a ring where every peer answers, the first candidate is taken: the peer
/// right above `id`, or peer 0 from the highest id. A ring of one peer closes on
/// itself on its first bootstrap. Every candidate is another peer of the ring,
/// but for that one.
pub proof fn lemma_next_in_full_ring(id: usize, peer_count: usize, initial: bool)
    requires
        id < peer_count,
    ensures
        peer_count > 1 ==> scan_order(id, peer_count, initial)[0] == if id + 1 < peer_count {
            id + 1
        } else {
            0
        },
        peer_count == 1 && initial ==> scan_order(id, peer_count, initial) == seq![0usize],
        peer_count == 1 && !initial ==> scan_order(id, peer_count, initial).len() == 0,
        forall|i: int|
            0 <= i < scan_order(id, peer_count, initial).len() ==> #[trigger] scan_order(
                id,
                peer_count,
                initial,
            )[i] < peer_count,
        forall|i: int, j: int|
            0 <= i < j < (peer_count - 1) ==> ring_gap(id, #[trigger] scan_order(id, peer_count, initial)[i], peer_count)
                < ring_gap(id, #[trigger] scan_order(id, peer_count, initial)[j], peer_count),
{
    let s = scan_order(id, peer_count, initial);
    if peer_count == 1 {
        assert(s =~= if initial { seq![0usize] } else { Seq::<usize>::empty() });
    }
}

/// `m` as relayed by `id`.
pub open spec fn relayed(m: MessageModel, id: usize) -> MessageModel {
    MessageModel { kind: m.kind, sender_id: m.sender_id, passed_by: m.passed_by.push(id) }
}

/// What the link to the next peer must do after a message for it came in.
pub enum NextAction {
    /// Send this message over the current link.
    Send(ServerMessage),
    /// Close the current link, link to this peer instead and hand it the diff.
    Splice(usize, Diff),
    /// The link to the next peer is gone: link again, then send what
    /// `on_connected` hands back.
    Reconnect,
    /// Nothing to send.
    Discard,
}

/// State of this peer's outbound link in the ring.
pub struct NextConnection {
    id: usize,
    peer_count: usize,
    next_id: usize,
    connected: bool,
    initial_connection: bool,
    last_token: Option<ServerMessage>,
    resend_token: bool,
}

impl NextConnection {
    pub closed spec fn id(&self) -> usize {
        self.id
    }

    pub closed spec fn peer_count(&self) -> usize {
        self.peer_count
    }

    /// The peer that the link goes to, or went to last.
    pub closed spec fn next_id(&self) -> usize {
        self.next_id
    }

    /// The link is believed up.
    pub closed spec fn connected(&self) -> bool {
        self.connected
    }

    /// Peer 0 has not yet tried to close the ring on itself.
    pub closed spec fn initial_connection(&self) -> bool {
        self.initial_connection
    }

    /// The last token handed to this link.
    pub closed spec fn last_token(&self) -> Option<MessageModel> {
        match self.last_token {
            Some(m) => Some(m@),
            None => None,
        }
    }

    /// The last token must be sent again once the link is back.
    pub closed spec fn resend_token(&self) -> bool {
        self.resend_token
    }

    pub open spec fn wf(&self) -> bool {
        &&& self.id() < self.peer_count()
        &&& self.next_id() < self.peer_count()
        &&& self.resend_token() ==> self.last_token() is Some
    }

    /// Everything but the link itself is as in `other`.
    pub open spec fn same_ring(&self, other: &NextConnection) -> bool {
        &&& self.id() == other.id()
        &&& self.peer_count() == other.peer_count()
        &&& self.initial_connection() == other.initial_connection()
        &&& self.last_token() == other.last_token()
    }

    /// Nothing changed.
    pub open spec fn same_as(&self, other: &NextConnection) -> bool {
        &&& self.same_ring(other)
        &&& self.next_id() == other.next_id()
        &&& self.connected() == other.connected()
        &&& self.resend_token() == other.resend_token()
    }

    pub fn new(id: usize, peer_count: usize) -> (r: NextConnection)
        requires
            id < peer_count,
        ensures
            r.wf(),
            r.id() == id,
            r.peer_count() == peer_count,
            r.next_id() == id,
            !r.connected(),
            r.initial_connection() == (id == 0),
            r.last_token() is None,
            !r.resend_token(),
    {
        NextConnection {
            id,
            peer_count,
            next_id: id,
            connected: false,
            initial_connection: id == 0,
            last_token: None,
            resend_token: false,
        }
    }

    /// The peers to try, in order, when linking to the next peer.
    pub fn candidates(&self) -> (r: Vec<usize>)
        requires
            self.wf(),
        ensures
            r@ == scan_order(self.id(), self.peer_count(), self.initial_connection()),
    {
        let mut r: Vec<usize> = Vec::new();
        let mut p: usize = self.id + 1;
        while p < self.peer_count
            invariant
                self.id < p <= self.peer_count,
                r@ == Seq::new((p - self.id - 1) as nat, |i: int| (self.id + 1 + i) as usize),
            decreases self.peer_count - p,
        {
            r.push(p);
            proof {
                assert(r@ =~= Seq::new((p + 1 - self.id - 1) as nat, |i: int| (self.id + 1 + i) as usize));
            }
            p = p + 1;
        }
        let ghost upper = r@;
        let mut q: usize = 0;
        while q < self.id
            invariant
                q <= self.id,
                r@ == upper + Seq::new(q as nat, |i: int| i as usize),
            decreases self.id - q,
        {
            r.push(q);
            proof {
                assert(r@ =~= upper + Seq::new((q + 1) as nat, |i: int| i as usize));
            }
            q = q + 1;
        }
        if self.id == 0 && self.initial_connection {
            r.push(0);
        }
        proof {
            assert(r@ =~= scan_order(self.id, self.peer_count, self.initial_connection));
        }
        r
    }

    /// The link to `peer` came up: it becomes the next peer. Hands back what to
    /// send on it, in order: the join announcement, then the last token where
    /// it is owed again.
    pub fn on_connected(&mut self, peer: usize, status: &mut ConnectionStatus) -> (r: Vec<
        ServerMessage,
    >)
        requires
            old(self).wf(),
            peer < old(self).peer_count(),
        ensures
            final(self).wf(),
            final(self).id() == old(self).id(),
            final(self).peer_count() == old(self).peer_count(),
            final(self).last_token() == old(self).last_token(),
            final(self).next_id() == peer,
            final(self).connected(),
            final(self).initial_connection() == (old(self).initial_connection() && peer
                != old(self).id()),
            !final(self).resend_token(),
            final(status).next(),
            final(status).prev() == old(status).prev(),
            r@.len() == if old(self).resend_token() { 2int } else { 1int },
            r@[0]@ == (MessageModel {
                kind: MessageKind::NewConnection(INITIAL_DIFF_STAMP_MS, Seq::empty()),
                sender_id: old(self).id(),
                passed_by: Seq::empty(),
            }),
            old(self).resend_token() ==> Some(r@[1]@) == old(self).last_token(),
    {
        self.next_id = peer;
        self.connected = true;
        if peer == self.id {
            self.initial_connection = false;
        }
        status.set_next_online();
        let mut r: Vec<ServerMessage> = Vec::new();
        r.push(create_new_connection_message(self.id));
        if self.resend_token {
            match &self.last_token {
                Some(t) => r.push(t.duplicate()),
                None => {},
            }
        }
        self.resend_token = false;
        r
    }

    /// No candidate could be reached: the link is down, and peer 0 has had its
    /// chance to close the ring on itself.
    pub fn on_connect_failed(&mut self, status: &mut ConnectionStatus)
        requires
            old(self).wf(),
        ensures
            final(self).wf(),
            final(self).id() == old(self).id(),
            final(self).peer_count() == old(self).peer_count(),
            final(self).next_id() == old(self).next_id(),
            final(self).last_token() == old(self).last_token(),
            final(self).resend_token() == old(self).resend_token(),
            !final(self).connected(),
            !final(self).initial_connection(),
            !final(status).next(),
            final(status).prev() == old(status).prev(),
    {
        self.connected = false;
        self.initial_connection = false;
        status.set_next_offline();
    }

    /// Sending on the link failed: the link is down, and a token that was being
    /// sent is owed again.
    pub fn on_send_failed(&mut self, status: &mut ConnectionStatus, was_token: bool)
        requires
            old(self).wf(),
        ensures
            final(self).wf(),
            final(self).same_ring(old(self)),
            final(self).next_id() == old(self).next_id(),
            !final(self).connected(),
            final(self).resend_token() == (old(self).resend_token() || (was_token
                && old(self).last_token() is Some)),
            !final(status).next(),
            final(status).prev() == old(status).prev(),
    {
        self.connected = false;
        if was_token && self.last_token.is_some() {
            self.resend_token = true;
        }
        status.set_next_offline();
    }

    /// Decides what the link does with a message bound for the next peer.
    /// A token is remembered and sent on. A join announcement that has gone
    /// round the ring is dropped; one from a peer that sits between this peer
    /// and its next one moves the link there; any other is relayed with this
    /// peer marked as having passed it. A notice that the link to this peer's
    /// own next one broke takes the link down and owes the last token again;
    /// a notice about any other link is relayed once round the ring.
    pub fn handle_message_to_next(
        &mut self,
        message: ServerMessage,
        status: &mut ConnectionStatus,
    ) -> (r: NextAction)
        requires
            old(self).wf(),
        ensures
            final(self).wf(),
            final(self).id() == old(self).id(),
            final(self).peer_count() == old(self).peer_count(),
            final(self).initial_connection() == old(self).initial_connection(),
            final(self).next_id() == old(self).next_id(),
            final(status).prev() == old(status).prev(),
            match message@.kind {
                MessageKind::Token(_) => {
                    &&& r matches NextAction::Send(m) && m@ == message@
                    &&& final(self).last_token() == Some(message@)
                    &&& !final(self).resend_token()
                    &&& final(self).connected() == old(self).connected()
                    &&& *final(status) == *old(status)
                },
                MessageKind::NewConnection(stamp, changes) => {
                    &&& final(self).same_as(old(self))
                    &&& *final(status) == *old(status)
                    &&& if message@.passed_by.contains(old(self).id()) {
                        r is Discard
                    } else if lies_between(
                        old(self).id(),
                        message@.sender_id,
                        old(self).next_id(),
                        old(self).peer_count(),
                    ) {
                        r matches NextAction::Splice(p, d) && p == message@.sender_id
                            && d.last_update == stamp && d.changes@ == changes
                    } else {
                        r matches NextAction::Send(m) && m@ == relayed(message@, old(self).id())
                    }
                },
                MessageKind::LostConnection(lost) => if lost == old(self).next_id() {
                    &&& r is Reconnect
                    &&& final(self).last_token() == old(self).last_token()
                    &&& final(self).resend_token() == old(self).last_token() is Some
                    &&& !final(self).connected()
                    &&& !final(status).next()
                } else {
                    &&& final(self).same_as(old(self))
                    &&& *final(status) == *old(status)
                    &&& if message@.passed_by.contains(old(self).id()) {
                        r is Discard
                    } else {
                        r matches NextAction::Send(m) && m@ == relayed(message@, old(self).id())
                    }
                },
                MessageKind::CloseConnection => {
                    &&& r is Discard
                    &&& final(self).same_as(old(self))
                    &&& *final(status) == *old(status)
                },
            },
    {
        let seen = contains_id(&message.passed_by, self.id);
        let ServerMessage { message_type, sender_id, mut passed_by } = message;
        match message_type {
            ServerMessageType::Token(t) => {
                let token = ServerMessage {
                    message_type: ServerMessageType::Token(t),
                    sender_id,
                    passed_by,
                };
                self.last_token = Some(token.duplicate());
                self.resend_token = false;
                NextAction::Send(token)
            },
            ServerMessageType::NewConnection(diff) => {
                if seen {
                    NextAction::Discard
                } else if self.lies_between(sender_id) {
                    NextAction::Splice(sender_id, diff)
                } else {
                    passed_by.push(self.id);
                    NextAction::Send(
                        ServerMessage {
                            message_type: ServerMessageType::NewConnection(diff),
                            sender_id,
                            passed_by,
                        },
                    )
                }
            },
            ServerMessageType::LostConnection(lost) => {
                if lost == self.next_id {
                    self.connected = false;
                    self.resend_token = self.last_token.is_some();
                    status.set_next_offline();
                    NextAction::Reconnect
                } else if seen {
                    NextAction::Discard
                } else {
                    passed_by.push(self.id);
                    NextAction::Send(
                        ServerMessage {
                            message_type: ServerMessageType::LostConnection(lost),
                            sender_id,
                            passed_by,
                        },
                    )
                }
            },
            ServerMessageType::CloseConnection => NextAction::Discard,
        }
    }

    /// Whether `peer` sits on the ring after this peer and before its next one.
    fn lies_between(&self, peer: usize) -> (r: bool)
        requires
            self.wf(),
        ensures
            r == lies_between(self.id(), peer, self.next_id(), self.peer_count()),
    {
        if peer >= self.peer_count || peer == self.id {
            return false;
        }
        let gap_peer: usize = if peer > self.id {
            peer - self.id
        } else {
            peer + (self.peer_count - self.id)
        };
        let gap_next: usize = if self.next_id > self.id {
            self.next_id - self.id
        } else {
            self.next_id + (self.peer_count - self.id)
        };
        gap_peer < gap_next
    }

    /// No message came for a while. Without a previous peer either, the ring is
    /// taken as broken and the link as down, so that it is made again.
    pub fn handle_timeout(&mut self, status: &mut ConnectionStatus) -> (r: bool)
        requires
            old(self).wf(),
        ensures
            final(self).wf(),
            r == !old(status).prev(),
            final(status).prev() == old(status).prev(),
            final(status).next() == (old(status).next() && !r),
            final(self).same_ring(old(self)),
            final(self).next_id() == old(self).next_id(),
            final(self).resend_token() == old(self).resend_token(),
            final(self).connected() == (old(self).connected() && !r),
    {
        if !status.is_prev_online() {
            status.set_next_offline();
            self.connected = false;
            true
        } else {
            false
        }
    }
}

/// Whether `id` is one of `ids`.
fn contains_id(ids: &Vec<usize>, id: usize) -> (r: bool)
    ensures
        r == ids@.contains(id),
{
    let mut i: usize = 0;
    while i < ids.len()
        invariant
            i <= ids@.len(),
            forall|k: int| 0 <= k < i ==> ids@[k] != id,
        decreases ids@.len() - i,
    {
        if ids[i] == id {
            assert(ids@[i as int] == id);
            return true;
        }
        i = i + 1;
    }
    false
}

} // verus!
