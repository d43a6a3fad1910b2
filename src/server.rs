//! The server's decisions: which events to play, whether to accept a client,
//! which connections receive a note, and how long clients wait at the end.
use crate::connection::ClientUID;
use crate::convert_duration::{Duration, ONE_SECOND_NS};
use crate::midi::{MusicalEvent, Note};
use crate::packet::Packet;
use crate::policies::by_channel::{channel_key, collect_channels};
use crate::policies::by_key::{contains_key, lemma_distinct_keys_contains, note_with_key};
use crate::policies::by_track::{collect_tracks, track_key};
use vstd::prelude::*;

verus! {

broadcast use vstd::laws_eq::group_laws_eq;

/// The channel that General MIDI keeps for percussion.
pub const PERCUSSION_CHANNEL: u8 = 10;

/// Which tracks and channels to play, besides those the piece uses.
pub struct FilterConfig {
    pub include_tracks: Vec<usize>,
    pub exclude_tracks: Vec<usize>,
    pub include_channels: Vec<u8>,
    pub exclude_channels: Vec<u8>,
    /// Play the percussion channel too.
    pub allow_channel_10: bool,
}

/// Whether some note of `events` plays on track `t`.
pub open spec fn plays_track(events: Seq<MusicalEvent>, t: usize) -> bool {
    exists|i: int| 0 <= i < events.len() && #[trigger] note_with_key(events[i], track_key(), t)
}

/// Whether some note of `events` plays on channel `c`.
pub open spec fn plays_channel(events: Seq<MusicalEvent>, c: u8) -> bool {
    exists|i: int| 0 <= i < events.len() && #[trigger] note_with_key(events[i], channel_key(), c)
}

/// Whether track `t` is played: a track of the piece that is not excluded,
/// or an included track.
pub open spec fn track_kept(events: Seq<MusicalEvent>, config: FilterConfig, t: usize) -> bool {
    (plays_track(events, t) && !config.exclude_tracks@.contains(t)) || config.include_tracks@.contains(t)
}

/// Whether channel `c` is excluded: named so, or the percussion channel
/// where the piece uses it and it is not allowed.
pub open spec fn channel_excluded(events: Seq<MusicalEvent>, config: FilterConfig, c: u8) -> bool {
    ||| config.exclude_channels@.contains(c)
    ||| (c == PERCUSSION_CHANNEL && plays_channel(events, PERCUSSION_CHANNEL)
        && !config.allow_channel_10)
}

/// Whether channel `c` is played: a channel of the piece that is not
/// excluded, or an included channel.
pub open spec fn channel_kept(events: Seq<MusicalEvent>, config: FilterConfig, c: u8) -> bool {
    (plays_channel(events, c) && !channel_excluded(events, config, c))
        || config.include_channels@.contains(c)
}

/// Whether `e` stays: every timing change, and the notes on played tracks
/// and played channels.
pub open spec fn event_kept(events: Seq<MusicalEvent>, config: FilterConfig, e: MusicalEvent) -> bool {
    match e {
        MusicalEvent::PlayNote(n) => track_kept(events, config, n.track) && channel_kept(
            events,
            config,
            n.channel,
        ),
        _ => true,
    }
}

/// The events of `events` that stay, in order.
pub open spec fn filtered(events: Seq<MusicalEvent>, config: FilterConfig) -> Seq<MusicalEvent> {
    events.filter(|e: MusicalEvent| event_kept(events, config, e))
}

fn contains_uid(v: &Vec<ClientUID>, uid: ClientUID) -> (r: bool)
    ensures
        r == v@.contains(uid),
{
    let mut i: usize = 0;
    while i < v.len()
        invariant
            i <= v@.len(),
            forall|j: int| 0 <= j < i ==> v@[j] != uid,
        decreases v@.len() - i,
    {
        if v[i] == uid {
            return true;
        }
        i += 1;
    }
    false
}

/// The events to play: every timing change, and the notes whose track and
/// channel are played.
pub fn filter_events(events: &[MusicalEvent], config: &FilterConfig) -> (r: Vec<MusicalEvent>)
    ensures
        r@ == filtered(events@, *config),
{
    let tracks = collect_tracks(events);
    let channels = collect_channels(events);
    let percussion_playing = contains_key(&channels, PERCUSSION_CHANNEL);
    proof {
        lemma_distinct_keys_contains(events@, channel_key(), PERCUSSION_CHANNEL);
    }
    let ghost pred = |e: MusicalEvent| event_kept(events@, *config, e);
    let mut out: Vec<MusicalEvent> = Vec::new();
    let mut i: usize = 0;
    while i < events.len()
        invariant
            i <= events@.len(),
            tracks@ == crate::policies::by_track::distinct_tracks(events@),
            channels@ == crate::policies::by_channel::distinct_channels(events@),
            percussion_playing == plays_channel(events@, PERCUSSION_CHANNEL),
            pred == (|e: MusicalEvent| event_kept(events@, *config, e)),
            out@ == events@.take(i as int).filter(pred),
        decreases events@.len() - i,
    {
        let e = events[i];
        let keep = match e {
            MusicalEvent::PlayNote(n) => {
                proof {
                    lemma_distinct_keys_contains(events@, track_key(), n.track);
                    lemma_distinct_keys_contains(events@, channel_key(), n.channel);
                }
                let track_ok = (contains_key(&tracks, n.track) && !contains_key(
                    &config.exclude_tracks,
                    n.track,
                )) || contains_key(&config.include_tracks, n.track);
                let excluded = contains_key(&config.exclude_channels, n.channel) || (n.channel
                    == PERCUSSION_CHANNEL && percussion_playing && !config.allow_channel_10);
                let channel_ok = (contains_key(&channels, n.channel) && !excluded)
                    || contains_key(&config.include_channels, n.channel);
                track_ok && channel_ok
            },
            _ => true,
        };
        proof {
            assert(events@.take(i + 1) =~= events@.take(i as int).push(e));
            events@.take(i as int).lemma_filter_push(e, pred);
        }
        if keep {
            out.push(e);
        }
        i += 1;
    }
    proof {
        assert(events@.take(i as int) =~= events@);
    }
    out
}

proof fn lemma_filter_all(s: Seq<MusicalEvent>, pred: spec_fn(MusicalEvent) -> bool)
    requires
        forall|i: int| 0 <= i < s.len() ==> pred(#[trigger] s[i]),
    ensures
        s.filter(pred) == s,
    decreases s.len(),
{
    reveal(Seq::filter);
    if s.len() > 0 {
        lemma_filter_all(s.drop_last(), pred);
        assert(pred(s[s.len() - 1]));
        assert(s.drop_last().push(s.last()) =~= s);
    }
}

/// Filtering the events that a filter kept keeps them all: applying the
/// filter twice gives what applying it once gives.
pub proof fn lemma_filter_idempotent(events: Seq<MusicalEvent>, config: FilterConfig)
    ensures
        filtered(filtered(events, config), config) == filtered(events, config),
{
    let pred = |e: MusicalEvent| event_kept(events, config, e);
    let once = filtered(events, config);
    let pred2 = |e: MusicalEvent| event_kept(once, config, e);
    assert forall|i: int| 0 <= i < once.len() implies pred2(#[trigger] once[i]) by {
        events.lemma_filter_pred(pred, i);
        if let MusicalEvent::PlayNote(n) = once[i] {
            assert(note_with_key(once[i], track_key(), n.track));
            assert(note_with_key(once[i], channel_key(), n.channel));
            assert(plays_track(once, n.track));
            assert(plays_channel(once, n.channel));
            if n.channel == PERCUSSION_CHANNEL && !config.allow_channel_10
                && !config.include_channels@.contains(n.channel) {
                assert(plays_channel(events, n.channel));
            }
        }
    }
    lemma_filter_all(once, pred2);
}

/// What the server does with a client after its first packet.
#[derive(Clone, Copy, Debug, PartialEq, Eq, Structural)]
pub enum Handshake {
    /// Register the client.
    Accept,
    /// Send this packet, then close the connection.
    Reject(Packet),
}

/// A client must introduce itself first; any other first packet is answered
/// with an order to stop at once.
pub fn handshake(first: &Packet) -> (r: Handshake)
    ensures
        first is ClientInfo ==> r == Handshake::Accept,
        !(first is ClientInfo) ==> r == Handshake::Reject(Packet::TerminateAfter(0)),
{
    match first {
        Packet::ClientInfo => Handshake::Accept,
        _ => Handshake::Reject(Packet::TerminateAfter(0)),
    }
}

/// The indices, in order, of the connections whose client is selected.
pub open spec fn selected_indices(selected: Seq<ClientUID>, connections: Seq<ClientUID>) -> Seq<int>
    decreases connections.len(),
{
    if connections.len() == 0 {
        Seq::empty()
    } else {
        let before = selected_indices(selected, connections.drop_last());
        if selected.contains(connections.last()) {
            before.push(connections.len() - 1)
        } else {
            before
        }
    }
}

/// The indices, in order, of the registered connections whose client is in
/// `selected`; each such connection receives the note once.
pub fn dispatch_targets(selected: &Vec<ClientUID>, connections: &[ClientUID]) -> (r: Vec<usize>)
    ensures
        r@.map_values(|i: usize| i as int) == selected_indices(selected@, connections@),
{
    let mut out: Vec<usize> = Vec::new();
    let mut i: usize = 0;
    while i < connections.len()
        invariant
            i <= connections@.len(),
            out@.map_values(|k: usize| k as int) == selected_indices(
                selected@,
                connections@.take(i as int),
            ),
        decreases connections@.len() - i,
    {
        proof {
            assert(connections@.take(i + 1).drop_last() =~= connections@.take(i as int));
        }
        if contains_uid(selected, connections[i]) {
            let ghost before = out@;
            out.push(i);
            proof {
                assert(out@.map_values(|k: usize| k as int) =~= before.map_values(|k: usize| k as int).push(i as int));
            }
        }
        i += 1;
    }
    proof {
        assert(connections@.take(i as int) =~= connections@);
    }
    out
}

/// `n`, or `u64::MAX` where `n` is larger.
pub open spec fn capped_u64(n: nat) -> u64 {
    if n <= u64::MAX {
        n as u64
    } else {
        u64::MAX
    }
}

/// The packet that makes a client play `note`, at the given frequency and
/// volume bits; its length is capped at `u64::MAX` nanoseconds.
pub fn play_note_packet(note: &Note, frequency_bits: u32, volume_bits: u32) -> (r: Packet)
    ensures
        r == (Packet::PlayNote {
            duration: capped_u64(note.duration@),
            frequency_bits,
            volume_bits,
        }),
{
    let total = note.duration.total_nanos();
    let duration: u64 = if total <= u64::MAX as u128 {
        total as u64
    } else {
        u64::MAX
    };
    Packet::PlayNote { duration, frequency_bits, volume_bits }
}

/// How long to wait before the event at `deadline`, measured from the same
/// start as `now`; `None` where it is due.
pub fn time_until(deadline: Duration, now: Duration) -> (r: Option<Duration>)
    requires
        deadline.is_normalized(),
    ensures
        now@ < deadline@ <==> r is Some,
        r matches Some(d) ==> d@ == deadline@ - now@,
{
    if now.total_nanos() < deadline.total_nanos() {
        Some(deadline.saturating_sub(now))
    } else {
        None
    }
}

/// Nanoseconds from `now` to the end of the last note, or zero where every
/// note has ended; capped at `u64::MAX`.
pub fn terminate_delay(latest_note_end: Duration, now: Duration) -> (r: u64)
    ensures
        r == if now@ < latest_note_end@ {
            capped_u64((latest_note_end@ - now@) as nat)
        } else {
            0
        },
{
    let end = latest_note_end.total_nanos();
    let at = now.total_nanos();
    if at < end {
        let left = end - at;
        if left <= u64::MAX as u128 {
            left as u64
        } else {
            u64::MAX
        }
    } else {
        0
    }
}

} // verus!
