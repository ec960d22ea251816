use vstd::prelude::*;

verus! {

/// Whether this peer's links to its previous and next peers are up.
pub struct ConnectionStatus {
    prev_online: bool,
    next_online: bool,
}

impl ConnectionStatus {
    /// The link from the previous peer is up.
    pub closed spec fn prev(&self) -> bool {
        self.prev_online
    }

    /// The link to the next peer is up.
    pub closed spec fn next(&self) -> bool {
        self.next_online
    }

    pub fn new() -> (r: ConnectionStatus)
        ensures
            !r.prev(),
            !r.next(),
    {
        ConnectionStatus { prev_online: false, next_online: false }
    }

    pub fn set_prev_online(&mut self)
        ensures
            final(self).prev(),
            final(self).next() == old(self).next(),
    {
        self.prev_online = true;
    }

    pub fn set_prev_offline(&mut self)
        ensures
            !final(self).prev(),
            final(self).next() == old(self).next(),
    {
        self.prev_online = false;
    }

    pub fn set_next_online(&mut self)
        ensures
            final(self).next(),
            final(self).prev() == old(self).prev(),
    {
        self.next_online = true;
    }

    pub fn set_next_offline(&mut self)
        ensures
            !final(self).next(),
            final(self).prev() == old(self).prev(),
    {
        self.next_online = false;
    }

    pub fn is_prev_online(&self) -> (r: bool)
        ensures
            r == self.prev(),
    {
        self.prev_online
    }

    pub fn is_next_online(&self) -> (r: bool)
        ensures
            r == self.next(),
    {
        self.next_online
    }

    /// The ring is formed when both links are up.
    pub fn is_online(&self) -> (r: bool)
        ensures
            r == (self.prev() && self.next()),
    {
        self.prev_online && self.next_online
    }
}

} // verus!
