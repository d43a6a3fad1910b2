//! Policies that decide which clients play a note.
use crate::connection::{ClientInfo, ClientUID};
use crate::midi::{MusicalEvent, Note};
use crate::policies::by_channel::distinct_channels;
use crate::policies::by_freq::{covering_clients, frequency_assignments, note_count, NOTE_NUMBERS};
use crate::policies::by_track::distinct_tracks;
use vstd::prelude::*;

pub mod broadcast;
pub mod by_channel;
pub mod by_freq;
pub mod by_key;
pub mod by_track;

use self::broadcast::BroadcastPolicy;
use self::by_channel::ByChannelPolicy;
use self::by_freq::ByFrequencyPolicy;
use self::by_track::ByTrackPolicy;

verus! {

/// What every policy offers.
pub trait ClientSelectionPolicy {
    /// Called with every registered client whenever one joins.
    fn on_clients_changed(&mut self, clients: &[ClientInfo]);

    /// The clients that play `note`.
    fn select_clients(&self, note: &Note) -> (r: Vec<ClientUID>);
}

/// The uids of the clients, in order.
pub open spec fn uids_of(clients: Seq<ClientInfo>) -> Seq<ClientUID> {
    clients.map_values(|c: ClientInfo| c.uid)
}

/// Keys dealt to the clients in turn: the key at index `i` goes to client
/// `i` modulo the number of clients. With no clients nothing is dealt.
pub open spec fn round_robin<K>(keys: Seq<K>, clients: Seq<ClientInfo>) -> Seq<(K, ClientUID)> {
    if clients.len() == 0 {
        Seq::empty()
    } else {
        Seq::new(keys.len(), |i: int| (keys[i], clients[i % (clients.len() as int)].uid))
    }
}

/// The client of the first assignment of `key`, or none.
pub open spec fn lookup<K>(assignments: Seq<(K, ClientUID)>, key: K) -> Seq<ClientUID>
    decreases assignments.len(),
{
    if assignments.len() == 0 {
        Seq::empty()
    } else if assignments[0].0 == key {
        seq![assignments[0].1]
    } else {
        lookup(assignments.drop_first(), key)
    }
}

/// Deals `keys` to `clients` in turn.
pub fn assign_round_robin<K: Copy>(keys: &Vec<K>, clients: &[ClientInfo]) -> (r: Vec<(K, ClientUID)>)
    ensures
        r@ == round_robin(keys@, clients@),
{
    let mut out: Vec<(K, ClientUID)> = Vec::new();
    if clients.len() == 0 {
        proof {
            assert(out@ =~= round_robin(keys@, clients@));
        }
        return out;
    }
    let mut i: usize = 0;
    while i < keys.len()
        invariant
            i <= keys@.len(),
            clients@.len() > 0,
            out@ =~= round_robin(keys@, clients@).take(i as int),
        decreases keys@.len() - i,
    {
        out.push((keys[i], clients[i % clients.len()].uid));
        i += 1;
    }
    proof {
        assert(round_robin(keys@, clients@).take(i as int) =~= round_robin(keys@, clients@));
    }
    out
}

/// A copy of a list of uids.
pub fn copy_uids(v: &Vec<ClientUID>) -> (r: Vec<ClientUID>)
    ensures
        r@ == v@,
{
    let mut out: Vec<ClientUID> = Vec::new();
    let mut i: usize = 0;
    while i < v.len()
        invariant
            i <= v@.len(),
            out@ =~= v@.take(i as int),
        decreases v@.len() - i,
    {
        out.push(v[i]);
        i += 1;
    }
    proof {
        assert(v@.take(i as int) =~= v@);
    }
    out
}

/// The policy a server runs.
pub enum Policy {
    Broadcast(BroadcastPolicy),
    ByTrack(ByTrackPolicy),
    ByChannel(ByChannelPolicy),
    ByFrequency(ByFrequencyPolicy),
}

impl Policy {
    /// The clients the policy picks for `note`.
    pub open spec fn selection(&self, note: Note) -> Seq<ClientUID> {
        match self {
            Policy::Broadcast(p) => p.clients(),
            Policy::ByTrack(p) => lookup(p.assignments(), note.track),
            Policy::ByChannel(p) => lookup(p.assignments(), note.channel),
            Policy::ByFrequency(p) => covering_clients(p.assignments(), note.note),
        }
    }

    /// `next` is `self` after being told of `clients`.
    pub open spec fn updated(&self, clients: Seq<ClientInfo>, next: Policy) -> bool {
        match (*self, next) {
            (Policy::Broadcast(_), Policy::Broadcast(q)) => q.clients() == uids_of(clients),
            (Policy::ByTrack(p), Policy::ByTrack(q)) => q.tracks() == p.tracks()
                && q.assignments() == round_robin(p.tracks(), clients),
            (Policy::ByChannel(p), Policy::ByChannel(q)) => q.channels() == p.channels()
                && q.assignments() == round_robin(p.channels(), clients),
            (Policy::ByFrequency(p), Policy::ByFrequency(q)) => q.histogram() == p.histogram()
                && q.spread() == p.spread() && q.assignments() == frequency_assignments(
                p.histogram(),
                clients,
                p.spread(),
            ),
            _ => false,
        }
    }
}

impl ClientSelectionPolicy for Policy {
    fn on_clients_changed(&mut self, clients: &[ClientInfo])
        ensures
            old(self).updated(clients@, *final(self)),
    {
        match self {
            Policy::Broadcast(p) => p.on_clients_changed(clients),
            Policy::ByTrack(p) => p.on_clients_changed(clients),
            Policy::ByChannel(p) => p.on_clients_changed(clients),
            Policy::ByFrequency(p) => p.on_clients_changed(clients),
        }
    }

    fn select_clients(&self, note: &Note) -> (r: Vec<ClientUID>)
        ensures
            r@ == self.selection(*note),
    {
        match self {
            Policy::Broadcast(p) => p.select_clients(note),
            Policy::ByTrack(p) => p.select_clients(note),
            Policy::ByChannel(p) => p.select_clients(note),
            Policy::ByFrequency(p) => p.select_clients(note),
        }
    }
}

/// The lower-case form of a string.
pub uninterp spec fn lowercase_of(s: Seq<char>) -> Seq<char>;

/// Relies on `str::to_lowercase`: the lower-case form of a string depends on
/// its characters alone.
#[verifier::external_body]
fn to_lowercase(s: &str) -> (r: String)
    ensures
        r@ == lowercase_of(s@),
{
    s.to_lowercase()
}

fn is_named(name: &String, wanted: &str) -> (r: bool)
    ensures
        r == (name@ == wanted@),
{
    let wanted = String::from_str(wanted);
    name.eq(&wanted)
}

/// What `policy_named` builds for `name` from `events`.
pub open spec fn named_policy(name: Seq<char>, events: Seq<MusicalEvent>, r: Option<Policy>) -> bool {
    if name == "broadcast"@ {
        r matches Some(Policy::Broadcast(p)) && p.clients() == Seq::<ClientUID>::empty()
    } else if name == "by-track"@ {
        r matches Some(Policy::ByTrack(p)) && p.tracks() == distinct_tracks(events)
            && p.assignments() == Seq::<(usize, ClientUID)>::empty()
    } else if name == "by-channel"@ {
        r matches Some(Policy::ByChannel(p)) && p.channels() == distinct_channels(events)
            && p.assignments() == Seq::<(u8, ClientUID)>::empty()
    } else if name == "by-freq"@ || name == "by-freq-spreadx2"@ {
        r matches Some(Policy::ByFrequency(p)) && p.spread() == (if name == "by-freq"@ {
            1nat
        } else {
            2nat
        }) && p.histogram().len() == NOTE_NUMBERS && (forall|n: int|
            0 <= n < NOTE_NUMBERS ==> #[trigger] p.histogram()[n] == note_count(events, n))
            && p.assignments().len() == 0
    } else {
        r is None
    }
}

/// The policy with the given lower-case name, over the notes of `events`:
/// `broadcast`, `by-track`, `by-channel`, `by-freq`, or `by-freq-spreadx2`
/// (bands of half the width); `None` for any other name.
pub fn policy_named(name: &String, events: &[MusicalEvent]) -> (r: Option<Policy>)
    ensures
        named_policy(name@, events@, r),
{
    if is_named(name, "broadcast") {
        Some(Policy::Broadcast(BroadcastPolicy::new()))
    } else if is_named(name, "by-track") {
        Some(Policy::ByTrack(ByTrackPolicy::new(events)))
    } else if is_named(name, "by-channel") {
        Some(Policy::ByChannel(ByChannelPolicy::new(events)))
    } else if is_named(name, "by-freq") {
        Some(Policy::ByFrequency(ByFrequencyPolicy::new(events, 1)))
    } else if is_named(name, "by-freq-spreadx2") {
        Some(Policy::ByFrequency(ByFrequencyPolicy::new(events, 2)))
    } else {
        None
    }
}

/// The policy named `name` in any case, over the notes of `events`.
pub fn select_policy(name: String, events: &[MusicalEvent]) -> (r: Option<Policy>)
    ensures
        named_policy(lowercase_of(name@), events@, r),
{
    let lowered = to_lowercase(name.as_str());
    policy_named(&lowered, events)
}

} // verus!
