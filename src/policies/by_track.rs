//! Each track goes to one client, the tracks dealt to the clients in turn.
use crate::connection::{ClientInfo, ClientUID};
use crate::midi::{MusicalEvent, Note};
use crate::policies::by_key::{collect_keys, distinct_keys, lookup_key};
use crate::policies::{assign_round_robin, lookup, round_robin, ClientSelectionPolicy};
use vstd::prelude::*;

verus! {

broadcast use vstd::laws_eq::group_laws_eq;

/// The track of a note.
pub open spec fn track_key() -> spec_fn(Note) -> usize {
    |n: Note| n.track
}

/// The tracks that notes of `events` play on, in the order they first appear.
pub open spec fn distinct_tracks(events: Seq<MusicalEvent>) -> Seq<usize> {
    distinct_keys(events, track_key())
}

pub struct ByTrackPolicy {
    tracks: Vec<usize>,
    assignments: Vec<(usize, ClientUID)>,
}

impl ByTrackPolicy {
    /// The tracks the policy deals out, in order of discovery.
    pub closed spec fn tracks(&self) -> Seq<usize> {
        self.tracks@
    }

    /// Each dealt track with its client.
    pub closed spec fn assignments(&self) -> Seq<(usize, ClientUID)> {
        self.assignments@
    }

    /// A policy over the tracks that notes of `events` play on.
    pub fn new(events: &[MusicalEvent]) -> (r: ByTrackPolicy)
        ensures
            r.tracks() == distinct_tracks(events@),
            r.tracks().no_duplicates(),
            r.assignments() == Seq::<(usize, ClientUID)>::empty(),
    {
        ByTrackPolicy { tracks: collect_tracks(events), assignments: Vec::new() }
    }
}

/// The tracks that notes of `events` play on, each once, in the order they
/// first appear.
pub fn collect_tracks(events: &[MusicalEvent]) -> (r: Vec<usize>)
    ensures
        r@ == distinct_tracks(events@),
        r@.no_duplicates(),
{
    collect_keys(events, |n: &Note| -> (r: usize) ensures r == n.track { n.track }, Ghost(track_key()))
}

impl ClientSelectionPolicy for ByTrackPolicy {
    fn on_clients_changed(&mut self, clients: &[ClientInfo])
        ensures
            final(self).tracks() == old(self).tracks(),
            final(self).assignments() == round_robin(old(self).tracks(), clients@),
    {
        self.assignments = assign_round_robin(&self.tracks, clients);
    }

    fn select_clients(&self, note: &Note) -> (r: Vec<ClientUID>)
        ensures
            r@ == lookup(self.assignments(), note.track),
    {
        lookup_key(&self.assignments, note.track)
    }
}

} // verus!
