use midi_orchestra::convert_duration::{duration_to_nanoseconds, nanoseconds_to_duration, Duration};
use midi_orchestra::midi::{
    clocks_to_duration, resolve_music, slice_to_text, Handler, InstrumentFamily, MetaKind,
    MidiEvent, MidiMessage, MusicalEvent, Ticks, Timing,
};

fn note_on(ch: u8, note: u8, velocity: u8) -> MidiMessage {
    MidiMessage::NoteOn { ch, note, velocity }
}

fn note_off(ch: u8, note: u8) -> MidiMessage {
    MidiMessage::NoteOff { ch, note, velocity: 0 }
}

fn offset_of(e: &MusicalEvent) -> Duration {
    e.start_offset()
}

#[test]
fn note_on_then_off_gives_one_note_over_that_interval() {
    let mut h = Handler::new(false);
    h.header(1, 1, 480);
    h.midi_event(100, note_on(0, 60, 90));
    h.midi_event(480, note_off(0, 60));
    let raw = h.into_music();
    assert_eq!(
        raw,
        vec![MidiEvent::PlayNote {
            track: 0,
            channel: 1,
            note: 60,
            start: Ticks(100),
            duration: Ticks(480),
            velocity: 90,
        }]
    );
}

#[test]
fn note_on_with_zero_velocity_ends_the_note() {
    let mut h = Handler::new(false);
    h.midi_event(0, note_on(2, 64, 70));
    h.midi_event(30, note_on(2, 64, 0));
    let raw = h.into_music();
    assert_eq!(raw.len(), 1);
    assert_eq!(
        raw[0],
        MidiEvent::PlayNote { track: 0, channel: 3, note: 64, start: Ticks(0), duration: Ticks(30), velocity: 70 }
    );
}

#[test]
fn retrigger_splits_the_note() {
    let mut h = Handler::new(false);
    h.midi_event(0, note_on(0, 60, 80));
    h.midi_event(10, note_on(0, 60, 100));
    h.midi_event(5, note_off(0, 60));
    let raw = h.into_music();
    assert_eq!(
        raw,
        vec![
            MidiEvent::PlayNote { track: 0, channel: 1, note: 60, start: Ticks(0), duration: Ticks(10), velocity: 80 },
            MidiEvent::PlayNote { track: 0, channel: 1, note: 60, start: Ticks(10), duration: Ticks(5), velocity: 100 },
        ]
    );
}

#[test]
fn orphan_note_off_and_unfinished_notes_are_dropped() {
    let mut h = Handler::new(false);
    h.midi_event(0, note_off(0, 60));
    h.midi_event(10, note_on(1, 61, 50));
    h.midi_event(10, MidiMessage::ProgramChange { ch: 0, program: 3 });
    h.midi_event(10, MidiMessage::Other);
    assert_eq!(h.current_time(), Ticks(30));
    assert!(h.into_music().is_empty());
}

#[test]
fn tempo_and_time_signature_meta_events() {
    let mut h = Handler::new(true);
    assert!(h.is_verbose());
    assert!(h.meta_event(7, MetaKind::SetTempo, &[0x07, 0xA1, 0x20]));
    assert_eq!(h.current_time(), Ticks(7));
    assert!(h.meta_event(3, MetaKind::TimeSignature, &[6, 3, 24, 8]));
    assert!(!h.meta_event(1, MetaKind::SetTempo, &[1, 2]));
    assert!(!h.meta_event(1, MetaKind::TimeSignature, &[1, 2, 3]));
    assert!(h.meta_event(1, MetaKind::Other, &[]));
    assert_eq!(h.current_time(), Ticks(13));
    let raw = h.into_music();
    assert_eq!(
        raw,
        vec![
            MidiEvent::ChangeTempo { new_tempo: 500_000, start: Ticks(0) },
            MidiEvent::ChangeTimeSignature { numerator: 6, denominator_exponent: 3, start: Ticks(7) },
        ]
    );
}

#[test]
fn track_change_resets_time_and_counts_tracks() {
    let mut h = Handler::new(false);
    h.midi_event(50, note_on(0, 40, 60));
    h.sys_ex_event(25);
    assert_eq!(h.current_time(), Ticks(75));
    h.track_change();
    assert_eq!(h.current_time(), Ticks(0));
    assert_eq!(h.current_track(), 1);
    h.midi_event(10, note_on(3, 50, 20));
    h.midi_event(10, note_off(3, 50));
    let raw = h.into_music();
    assert_eq!(
        raw,
        vec![MidiEvent::PlayNote { track: 1, channel: 4, note: 50, start: Ticks(10), duration: Ticks(10), velocity: 20 }]
    );
}

#[test]
fn note_ended_before_its_start_in_a_later_track_is_dropped() {
    let mut h = Handler::new(false);
    h.midi_event(100, note_on(0, 60, 60));
    h.track_change();
    h.midi_event(10, note_off(0, 60));
    h.midi_event(200, note_off(0, 60));
    assert!(h.into_music().is_empty());
}

#[test]
fn note_on_and_off_on_one_tick_give_no_note() {
    let mut h = Handler::new(false);
    h.midi_event(40, note_on(0, 60, 100));
    h.midi_event(0, note_off(0, 60));
    h.midi_event(0, note_on(1, 62, 100));
    h.midi_event(0, note_on(1, 62, 90));
    h.midi_event(20, note_off(1, 62));
    let raw = h.into_music();
    assert_eq!(
        raw,
        vec![MidiEvent::PlayNote { track: 0, channel: 2, note: 62, start: Ticks(40), duration: Ticks(20), velocity: 90 }]
    );
    let music = resolve_music(480, &raw);
    for e in music.events() {
        if let MusicalEvent::PlayNote(n) = e {
            assert!(n.duration != Duration::zero());
        }
    }
}

#[test]
fn notes_that_come_to_zero_nanoseconds_are_left_out() {
    let raw = vec![
        MidiEvent::ChangeTempo { new_tempo: 0, start: Ticks(0) },
        MidiEvent::PlayNote { track: 0, channel: 1, note: 60, start: Ticks(0), duration: Ticks(480), velocity: 100 },
        MidiEvent::ChangeTempo { new_tempo: 500_000, start: Ticks(480) },
        MidiEvent::PlayNote { track: 0, channel: 1, note: 62, start: Ticks(480), duration: Ticks(480), velocity: 100 },
    ];
    let music = resolve_music(480, &raw);
    let events = music.events();
    assert_eq!(events.len(), 3);
    assert!(matches!(events[0], MusicalEvent::TimingChange(_)));
    assert!(matches!(events[1], MusicalEvent::TimingChange(_)));
    match events[2] {
        MusicalEvent::PlayNote(n) => {
            assert_eq!(n.note, 62);
            assert_eq!(n.start_offset, Duration::zero());
            assert_eq!(n.duration, Duration { secs: 0, nanos: 500_000_000 });
        },
        _ => panic!("expected a note"),
    }
}

#[test]
fn header_sets_division() {
    let mut h = Handler::new(false);
    assert_eq!(h.get_division(), 0);
    h.header(1, 3, 96);
    assert_eq!(h.get_division(), 96);
}

#[test]
fn events_at_ticks_0_10_10_25_keep_insertion_order_and_offsets_grow() {
    let mut h = Handler::new(false);
    h.header(1, 2, 480);
    // track 0: a note from tick 10 to tick 25
    h.midi_event(10, note_on(0, 60, 64));
    h.midi_event(15, note_off(0, 60));
    h.track_change();
    // track 1: a tempo at 0, a time signature at 10, a tempo at 25
    assert!(h.meta_event(0, MetaKind::SetTempo, &[0x07, 0xA1, 0x20]));
    h.sys_ex_event(10);
    assert!(h.meta_event(15, MetaKind::TimeSignature, &[3, 2, 24, 8]));
    assert!(h.meta_event(0, MetaKind::SetTempo, &[0x03, 0xD0, 0x90]));
    let division = h.get_division();
    let raw = h.into_music();
    let starts: Vec<u64> = raw.iter().map(|e| e.start_tick().0).collect();
    assert_eq!(starts, vec![0, 10, 10, 25]);
    assert!(matches!(raw[0], MidiEvent::ChangeTempo { new_tempo: 500_000, .. }));
    assert!(matches!(raw[1], MidiEvent::PlayNote { .. }));
    assert!(matches!(raw[2], MidiEvent::ChangeTimeSignature { numerator: 3, .. }));
    assert!(matches!(raw[3], MidiEvent::ChangeTempo { new_tempo: 250_000, .. }));
    let music = resolve_music(division, &raw);
    let events = music.events();
    assert_eq!(events.len(), 4);
    for w in events.windows(2) {
        let a = offset_of(&w[0]);
        let b = offset_of(&w[1]);
        assert!((a.secs, a.nanos) <= (b.secs, b.nanos));
    }
    assert!(matches!(events[1], MusicalEvent::PlayNote(_)));
    assert!(matches!(events[2], MusicalEvent::TimingChange(_)));
    assert_eq!(offset_of(&events[1]), offset_of(&events[2]));
}

#[test]
fn tempo_conversion_of_480_ticks() {
    let mut timing = Timing::new(480);
    assert_eq!(clocks_to_duration(&timing, Ticks(480)), Duration { secs: 0, nanos: 500_000_000 });
    timing.microseconds_per_quarter_note = 250_000;
    assert_eq!(clocks_to_duration(&timing, Ticks(480)), Duration { secs: 0, nanos: 250_000_000 });
    assert_eq!(clocks_to_duration(&timing, Ticks(4800)), Duration { secs: 2, nanos: 500_000_000 });
}

#[test]
fn tempo_conversion_without_ticks_per_quarter() {
    let timing = Timing::new(0);
    assert_eq!(clocks_to_duration(&timing, Ticks(0)), Duration { secs: 0, nanos: 0 });
    let d = clocks_to_duration(&timing, Ticks(1));
    assert_eq!(duration_to_nanoseconds(d), u64::MAX);
}

#[test]
fn resolve_applies_tempo_changes_from_where_they_occur() {
    let raw = vec![
        MidiEvent::PlayNote { track: 0, channel: 1, note: 60, start: Ticks(0), duration: Ticks(480), velocity: 100 },
        MidiEvent::ChangeTempo { new_tempo: 250_000, start: Ticks(480) },
        MidiEvent::PlayNote { track: 0, channel: 1, note: 62, start: Ticks(960), duration: Ticks(960), velocity: 100 },
        MidiEvent::ChangeTimeSignature { numerator: 3, denominator_exponent: 3, start: Ticks(960) },
    ];
    let music = resolve_music(480, &raw);
    let events = music.events();
    match events[0] {
        MusicalEvent::PlayNote(n) => {
            assert_eq!(n.start_offset, Duration { secs: 0, nanos: 0 });
            assert_eq!(n.duration, Duration { secs: 0, nanos: 500_000_000 });
            assert_eq!((n.track, n.channel, n.note, n.velocity), (0, 1, 60, 100));
        },
        _ => panic!("expected a note"),
    }
    match events[1] {
        MusicalEvent::TimingChange(t) => {
            assert_eq!(t.start_offset, Duration { secs: 0, nanos: 500_000_000 });
            assert_eq!(t.timing.microseconds_per_quarter_note, 250_000);
        },
        _ => panic!("expected a timing change"),
    }
    match events[2] {
        MusicalEvent::PlayNote(n) => {
            assert_eq!(n.start_offset, Duration { secs: 0, nanos: 750_000_000 });
            assert_eq!(n.duration, Duration { secs: 0, nanos: 500_000_000 });
        },
        _ => panic!("expected a note"),
    }
    match events[3] {
        MusicalEvent::TimingChange(t) => {
            assert_eq!(t.start_offset, Duration { secs: 0, nanos: 750_000_000 });
            assert_eq!(t.timing.time_signature_numerator, 3);
            assert_eq!(t.timing.time_signature_denominator_exponent, 3);
            assert_eq!(t.timing.microseconds_per_quarter_note, 250_000);
        },
        _ => panic!("expected a timing change"),
    }
}

#[test]
fn instrument_families() {
    assert_eq!(InstrumentFamily::from_program(0), InstrumentFamily::Piano);
    assert_eq!(InstrumentFamily::from_program(8), InstrumentFamily::ChromaticPercussion);
    assert_eq!(InstrumentFamily::from_program(40), InstrumentFamily::Strings);
    assert_eq!(InstrumentFamily::from_program(127), InstrumentFamily::SoundEffects);
    assert_eq!(InstrumentFamily::from_program(128), InstrumentFamily::Piano);
}

#[test]
fn meta_text_decoding() {
    assert_eq!(slice_to_text(b"Piano"), "Piano");
    assert_eq!(slice_to_text(&[0xff, 0xfe]), "<failed to decode text>");
}

#[test]
fn nanosecond_conversions() {
    assert_eq!(nanoseconds_to_duration(2_500_000_001), Duration { secs: 2, nanos: 500_000_001 });
    assert_eq!(nanoseconds_to_duration(999_999_999), Duration { secs: 0, nanos: 999_999_999 });
    assert_eq!(duration_to_nanoseconds(Duration { secs: 3, nanos: 7 }), 3_000_000_007);
    let d = nanoseconds_to_duration(1_000_000_000);
    assert_eq!((d.as_secs(), d.subsec_nanos()), (1, 0));
}

#[test]
fn duration_arithmetic_saturates() {
    let max = Duration { secs: u64::MAX, nanos: 999_999_999 };
    assert_eq!(max.saturating_add(Duration { secs: 0, nanos: 1 }), max);
    let a = Duration { secs: 1, nanos: 600_000_000 };
    let b = Duration { secs: 0, nanos: 700_000_000 };
    assert_eq!(a.saturating_add(b), Duration { secs: 2, nanos: 300_000_000 });
    assert_eq!(a.saturating_sub(b), Duration { secs: 0, nanos: 900_000_000 });
    assert_eq!(b.saturating_sub(a), Duration::zero());
    assert_eq!(a.max(b), a);
}

#[test]
fn empty_input_gives_empty_schedule() {
    let h = Handler::new(false);
    let raw = h.into_music();
    assert!(raw.is_empty());
    assert!(resolve_music(480, &raw).events().is_empty());
}

#[test]
fn unsorted_input_never_goes_back_in_time() {
    let raw = vec![
        MidiEvent::ChangeTempo { new_tempo: 500_000, start: Ticks(960) },
        MidiEvent::ChangeTempo { new_tempo: 500_000, start: Ticks(480) },
    ];
    let music = resolve_music(480, &raw);
    let events = music.events();
    assert_eq!(offset_of(&events[0]), Duration { secs: 1, nanos: 0 });
    assert_eq!(offset_of(&events[1]), Duration { secs: 1, nanos: 0 });
}
