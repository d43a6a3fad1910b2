//! Client identities, handed out in increasing order as clients connect.
use vstd::prelude::*;

verus! {

/// The identity of a connected client.
#[derive(Clone, Copy, Debug, PartialEq, Eq, Structural)]
pub struct ClientUID(pub usize);

impl ClientUID {
    pub fn new(uid: usize) -> (r: ClientUID)
        ensures
            r.0 == uid,
    {
        ClientUID(uid)
    }
}

/// Hands out identities, one above the other, starting from one.
pub struct ClientUIDFactory {
    next: ClientUID,
}

impl ClientUIDFactory {
    /// The identity the next call of `make` hands out.
    pub closed spec fn next_uid(&self) -> usize {
        self.next.0
    }

    pub fn new() -> (r: ClientUIDFactory)
        ensures
            r.next_uid() == 1,
    {
        ClientUIDFactory { next: ClientUID::new(1) }
    }

    /// Whether every identity has been handed out.
    pub fn is_exhausted(&self) -> (r: bool)
        ensures
            r == (self.next_uid() == usize::MAX),
    {
        self.next.0 == usize::MAX
    }

    /// A new identity, one above the last.
    pub fn make(&mut self) -> (r: ClientUID)
        requires
            old(self).next_uid() < usize::MAX,
        ensures
            r.0 == old(self).next_uid(),
            final(self).next_uid() == old(self).next_uid() + 1,
    {
        let current = self.next;
        self.next = ClientUID::new(current.0 + 1);
        current
    }
}

/// What the server knows of a client.
#[derive(Clone, Copy, Debug, PartialEq, Eq, Structural)]
pub struct ClientInfo {
    pub uid: ClientUID,
}

impl ClientInfo {
    pub fn new(uid: ClientUID) -> (r: ClientInfo)
        ensures
            r.uid == uid,
    {
        ClientInfo { uid }
    }
}

} // verus!
