//! Each channel goes to one client, the channels dealt to the clients in turn.
use crate::connection::{ClientInfo, ClientUID};
use crate::midi::{MusicalEvent, Note};
use crate::policies::by_key::{collect_keys, distinct_keys, lookup_key};
use crate::policies::{assign_round_robin, lookup, round_robin, ClientSelectionPolicy};
use vstd::prelude::*;

verus! {

broadcast use vstd::laws_eq::group_laws_eq;

/// The channel of a note.
pub open spec fn channel_key() -> spec_fn(Note) -> u8 {
    |n: Note| n.channel
}

/// The channels that notes of `events` play on, in the order they first appear.
pub open spec fn distinct_channels(events: Seq<MusicalEvent>) -> Seq<u8> {
    distinct_keys(events, channel_key())
}

pub struct ByChannelPolicy {
    channels: Vec<u8>,
    assignments: Vec<(u8, ClientUID)>,
}

impl ByChannelPolicy {
    /// The channels the policy deals out, in order of discovery.
    pub closed spec fn channels(&self) -> Seq<u8> {
        self.channels@
    }

    /// Each dealt channel with its client.
    pub closed spec fn assignments(&self) -> Seq<(u8, ClientUID)> {
        self.assignments@
    }

    /// A policy over the channels that notes of `events` play on.
    pub fn new(events: &[MusicalEvent]) -> (r: ByChannelPolicy)
        ensures
            r.channels() == distinct_channels(events@),
            r.channels().no_duplicates(),
            r.assignments() == Seq::<(u8, ClientUID)>::empty(),
    {
        ByChannelPolicy { channels: collect_channels(events), assignments: Vec::new() }
    }
}

/// The channels that notes of `events` play on, each once, in the order they
/// first appear.
pub fn collect_channels(events: &[MusicalEvent]) -> (r: Vec<u8>)
    ensures
        r@ == distinct_channels(events@),
        r@.no_duplicates(),
{
    collect_keys(events, |n: &Note| -> (r: u8) ensures r == n.channel { n.channel }, Ghost(channel_key()))
}

impl ClientSelectionPolicy for ByChannelPolicy {
    fn on_clients_changed(&mut self, clients: &[ClientInfo])
        ensures
            final(self).channels() == old(self).channels(),
            final(self).assignments() == round_robin(old(self).channels(), clients@),
    {
        self.assignments = assign_round_robin(&self.channels, clients);
    }

    fn select_clients(&self, note: &Note) -> (r: Vec<ClientUID>)
        ensures
            r@ == lookup(self.assignments(), note.channel),
    {
        lookup_key(&self.assignments, note.channel)
    }
}

} // verus!
