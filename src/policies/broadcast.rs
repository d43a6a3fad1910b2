//! Every client plays every note.
use crate::connection::{ClientInfo, ClientUID};
use crate::midi::Note;
use crate::policies::{copy_uids, uids_of, ClientSelectionPolicy};
use vstd::prelude::*;

verus! {

pub struct BroadcastPolicy {
    all: Vec<ClientUID>,
}

impl BroadcastPolicy {
    /// The clients known to the policy.
    pub closed spec fn clients(&self) -> Seq<ClientUID> {
        self.all@
    }

    pub fn new() -> (r: BroadcastPolicy)
        ensures
            r.clients() == Seq::<ClientUID>::empty(),
    {
        BroadcastPolicy { all: Vec::new() }
    }
}

impl ClientSelectionPolicy for BroadcastPolicy {
    fn on_clients_changed(&mut self, clients: &[ClientInfo])
        ensures
            final(self).clients() == uids_of(clients@),
    {
        let mut all: Vec<ClientUID> = Vec::new();
        let mut i: usize = 0;
        while i < clients.len()
            invariant
                i <= clients@.len(),
                all@ =~= uids_of(clients@).take(i as int),
            decreases clients@.len() - i,
        {
            all.push(clients[i].uid);
            i += 1;
        }
        proof {
            assert(uids_of(clients@).take(i as int) =~= uids_of(clients@));
        }
        self.all = all;
    }

    fn select_clients(&self, note: &Note) -> (r: Vec<ClientUID>)
        ensures
            r@ == self.clients(),
    {
        copy_uids(&self.all)
    }
}

} // verus!
