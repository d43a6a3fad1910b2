use midi_orchestra::connection::{ClientInfo, ClientUID, ClientUIDFactory};
use midi_orchestra::convert_duration::Duration;
use midi_orchestra::midi::{MusicalEvent, Note, Timing, TimingChange};
use midi_orchestra::policies::broadcast::BroadcastPolicy;
use midi_orchestra::policies::by_channel::ByChannelPolicy;
use midi_orchestra::policies::by_freq::{build_histogram, ByFrequencyPolicy};
use midi_orchestra::policies::by_track::ByTrackPolicy;
use midi_orchestra::policies::{policy_named, select_policy, ClientSelectionPolicy, Policy};
use midi_orchestra::server::dispatch_targets;

fn note(track: usize, channel: u8, n: u8) -> Note {
    Note {
        start_offset: Duration::zero(),
        channel,
        track,
        note: n,
        duration: Duration { secs: 0, nanos: 100 },
        velocity: 64,
    }
}

fn clients(n: usize) -> Vec<ClientInfo> {
    let mut factory = ClientUIDFactory::new();
    (0..n).map(|_| ClientInfo::new(factory.make())).collect()
}

fn uid(n: usize) -> ClientUID {
    ClientUID::new(n)
}

fn histogram_events(counts: &[(u8, usize)]) -> Vec<MusicalEvent> {
    let mut events = Vec::new();
    events.push(MusicalEvent::TimingChange(TimingChange { start_offset: Duration::zero(), timing: Timing::new(480) }));
    for &(n, c) in counts {
        for _ in 0..c {
            events.push(MusicalEvent::PlayNote(note(0, 1, n)));
        }
    }
    events
}

#[test]
fn uids_start_at_one_and_go_up_by_one() {
    let mut factory = ClientUIDFactory::new();
    assert!(!factory.is_exhausted());
    assert_eq!(factory.make(), uid(1));
    assert_eq!(factory.make(), uid(2));
    assert_eq!(factory.make(), uid(3));
    assert_eq!(ClientInfo::new(uid(9)).uid, uid(9));
}

#[test]
fn broadcast_with_three_clients_sends_three_notes() {
    let mut p = BroadcastPolicy::new();
    assert!(p.select_clients(&note(0, 1, 60)).is_empty());
    let cs = clients(3);
    p.on_clients_changed(&cs);
    let selected = p.select_clients(&note(0, 1, 60));
    assert_eq!(selected, vec![uid(1), uid(2), uid(3)]);
    let connections: Vec<ClientUID> = cs.iter().map(|c| c.uid).collect();
    assert_eq!(dispatch_targets(&selected, &connections), vec![0, 1, 2]);
}

#[test]
fn by_channel_deals_channels_in_turn() {
    let events = vec![
        MusicalEvent::PlayNote(note(0, 1, 60)),
        MusicalEvent::PlayNote(note(0, 3, 60)),
        MusicalEvent::PlayNote(note(0, 1, 62)),
        MusicalEvent::PlayNote(note(0, 5, 60)),
    ];
    let mut p = ByChannelPolicy::new(&events);
    p.on_clients_changed(&clients(2));
    assert_eq!(p.select_clients(&note(0, 1, 70)), vec![uid(1)]);
    assert_eq!(p.select_clients(&note(0, 3, 70)), vec![uid(2)]);
    assert_eq!(p.select_clients(&note(0, 5, 70)), vec![uid(1)]);
    let selected = p.select_clients(&note(0, 4, 70));
    assert!(selected.is_empty());
    assert!(dispatch_targets(&selected, &[uid(1), uid(2)]).is_empty());
}

#[test]
fn by_track_deals_tracks_in_turn() {
    let events = vec![
        MusicalEvent::PlayNote(note(2, 1, 60)),
        MusicalEvent::PlayNote(note(0, 1, 60)),
        MusicalEvent::PlayNote(note(7, 1, 60)),
        MusicalEvent::PlayNote(note(2, 1, 61)),
    ];
    let mut p = ByTrackPolicy::new(&events);
    assert!(p.select_clients(&note(2, 1, 60)).is_empty());
    p.on_clients_changed(&clients(2));
    assert_eq!(p.select_clients(&note(2, 1, 60)), vec![uid(1)]);
    assert_eq!(p.select_clients(&note(0, 1, 60)), vec![uid(2)]);
    assert_eq!(p.select_clients(&note(7, 1, 60)), vec![uid(1)]);
    assert!(p.select_clients(&note(3, 1, 60)).is_empty());
    p.on_clients_changed(&clients(3));
    assert_eq!(p.select_clients(&note(7, 1, 60)), vec![uid(3)]);
}

#[test]
fn by_freq_histogram_60_4_62_4_64_2_with_two_clients() {
    // Ideal load is 10 / 2 = 5 notes. The band opened at note 60 holds 4 < 5
    // notes when note 62 comes, so it takes 62 too; 64 opens the next band.
    let events = histogram_events(&[(60, 4), (62, 4), (64, 2)]);
    let mut p = ByFrequencyPolicy::new(&events, 1);
    p.on_clients_changed(&clients(2));
    assert_eq!(p.select_clients(&note(0, 1, 60)), vec![uid(1)]);
    assert_eq!(p.select_clients(&note(0, 1, 61)), vec![uid(1)]);
    assert_eq!(p.select_clients(&note(0, 1, 62)), vec![uid(1)]);
    assert_eq!(p.select_clients(&note(0, 1, 64)), vec![uid(2)]);
    assert!(p.select_clients(&note(0, 1, 71)).is_empty());
    assert!(p.select_clients(&note(0, 1, 59)).is_empty());
}

#[test]
fn by_freq_band_loads_stay_within_bound() {
    let counts = [(40u8, 3usize), (45, 1), (50, 7), (52, 2), (60, 5), (61, 1), (70, 4), (80, 2)];
    let events = histogram_events(&counts);
    let total: usize = counts.iter().map(|c| c.1).sum();
    let max_single = counts.iter().map(|c| c.1).max().unwrap();
    for k in 1..5usize {
        let mut p = ByFrequencyPolicy::new(&events, 1);
        let cs = clients(k);
        p.on_clients_changed(&cs);
        let mut per_note_clients = Vec::new();
        for &(n, _) in &counts {
            let s = p.select_clients(&note(0, 1, n));
            assert_eq!(s.len(), 1);
            per_note_clients.push(s[0]);
        }
        // each band: consecutive notes with the same client
        let mut i = 0;
        while i < counts.len() {
            let mut j = i;
            let mut load = 0;
            while j < counts.len() && per_note_clients[j] == per_note_clients[i] {
                load += counts[j].1;
                j += 1;
            }
            assert!(load <= (total + k - 1) / k + max_single);
            i = j;
        }
    }
}

#[test]
fn by_freq_spread_two_repeats_clients_around_the_keyboard() {
    let events = histogram_events(&[(60, 2), (61, 2), (62, 2), (63, 2)]);
    let mut p = ByFrequencyPolicy::new(&events, 2);
    p.on_clients_changed(&clients(2));
    // ideal = (8 / 2) / 2 = 2: each note number is a band of its own
    assert_eq!(p.select_clients(&note(0, 1, 60)), vec![uid(1)]);
    assert_eq!(p.select_clients(&note(0, 1, 61)), vec![uid(2)]);
    assert_eq!(p.select_clients(&note(0, 1, 62)), vec![uid(1)]);
    assert_eq!(p.select_clients(&note(0, 1, 63)), vec![uid(2)]);
}

#[test]
fn by_freq_with_tiny_piece_opens_a_band_per_note() {
    let events = histogram_events(&[(60, 1), (64, 1)]);
    let mut p = ByFrequencyPolicy::new(&events, 2);
    p.on_clients_changed(&clients(3));
    assert_eq!(p.select_clients(&note(0, 1, 60)), vec![uid(1)]);
    assert_eq!(p.select_clients(&note(0, 1, 64)), vec![uid(2)]);
    p.on_clients_changed(&[]);
    assert!(p.select_clients(&note(0, 1, 60)).is_empty());
}

#[test]
fn histogram_counts_notes() {
    let events = histogram_events(&[(60, 4), (62, 4), (64, 2)]);
    let h = build_histogram(&events);
    assert_eq!(h.len(), 256);
    assert_eq!((h[60], h[62], h[64], h[61]), (4, 4, 2, 0));
}

#[test]
fn policies_by_name() {
    let events = histogram_events(&[(60, 1)]);
    assert!(matches!(select_policy("broadcast".to_string(), &events), Some(Policy::Broadcast(_))));
    assert!(matches!(select_policy("BY-TRACK".to_string(), &events), Some(Policy::ByTrack(_))));
    assert!(matches!(select_policy("by-channel".to_string(), &events), Some(Policy::ByChannel(_))));
    assert!(matches!(select_policy("by-freq".to_string(), &events), Some(Policy::ByFrequency(_))));
    assert!(matches!(select_policy("by-freq-spreadX2".to_string(), &events), Some(Policy::ByFrequency(_))));
    assert!(select_policy("random".to_string(), &events).is_none());
    assert!(policy_named(&"BROADCAST".to_string(), &events).is_none());
}

#[test]
fn policy_enum_dispatches() {
    let events = histogram_events(&[(60, 1)]);
    let mut p = select_policy("broadcast".to_string(), &events).unwrap();
    p.on_clients_changed(&clients(2));
    assert_eq!(p.select_clients(&note(0, 1, 60)), vec![uid(1), uid(2)]);
}
