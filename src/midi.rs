//! MIDI ingestion: the callbacks of a MIDI decoder fill a `Handler`, which
//! pairs note-on and note-off messages into notes; `resolve_music` then
//! turns the tick-stamped events into a schedule in wall-clock time.
use crate::convert_duration::{Duration, ONE_SECOND_NS};
use crate::event_queue::{
    pair_le, queue_contents, queue_into_sorted_vec, queue_new, queue_push, EventQueue,
};
use std::collections::HashMap;
use vstd::prelude::*;

verus! {

broadcast use vstd::std_specs::hash::group_hash_axioms;

/// A point or a span in the MIDI file's own time base.
#[derive(Clone, Copy, Debug, PartialEq, Eq, Structural, Hash)]
pub struct Ticks(pub u64);

/// The tempo and time signature in force at some point of a piece.
#[derive(Clone, Copy, Debug, PartialEq, Eq, Structural)]
pub struct Timing {
    pub ticks_per_quarter_note: u16,
    pub microseconds_per_quarter_note: u32,
    pub time_signature_numerator: u8,
    /// The denominator of the time signature is two to this power.
    pub time_signature_denominator_exponent: u8,
}

/// The timing of a piece before its first change: 120 beats a minute, in 4/4.
pub open spec fn default_timing(ticks_per_quarter_note: u16) -> Timing {
    Timing {
        ticks_per_quarter_note,
        microseconds_per_quarter_note: 500_000,
        time_signature_numerator: 4,
        time_signature_denominator_exponent: 2,
    }
}

impl Timing {
    /// The timing of a piece before its first change.
    pub fn new(ticks_per_quarter_note: u16) -> (r: Timing)
        ensures
            r == default_timing(ticks_per_quarter_note),
    {
        Timing {
            ticks_per_quarter_note,
            microseconds_per_quarter_note: 500_000,
            time_signature_numerator: 4,
            time_signature_denominator_exponent: 2,
        }
    }
}

/// Nanoseconds that `clocks` ticks last under `timing`, rounded down and
/// capped at `u64::MAX`. With no ticks per quarter note a span of ticks is
/// endless, unless it is empty or the tempo is zero.
pub open spec fn clocks_nanos(timing: Timing, clocks: u64) -> nat {
    let scaled = clocks as nat * timing.microseconds_per_quarter_note as nat * 1000;
    if timing.ticks_per_quarter_note == 0 {
        if scaled == 0 {
            0
        } else {
            u64::MAX as nat
        }
    } else if scaled / (timing.ticks_per_quarter_note as nat) <= u64::MAX {
        scaled / (timing.ticks_per_quarter_note as nat)
    } else {
        u64::MAX as nat
    }
}

/// The normalized duration of `nanos` nanoseconds.
pub open spec fn duration_of(nanos: nat) -> Duration {
    Duration {
        secs: (nanos / ONE_SECOND_NS as nat) as u64,
        nanos: (nanos % ONE_SECOND_NS as nat) as u32,
    }
}

/// A normalized duration is the one its length gives.
pub proof fn lemma_duration_of(d: Duration)
    requires
        d.is_normalized(),
    ensures
        duration_of(d@) == d,
{
    vstd::arithmetic::div_mod::lemma_fundamental_div_mod_converse(
        d@ as int,
        ONE_SECOND_NS as int,
        d.secs as int,
        d.nanos as int,
    );
}

/// The wall-clock length of `clocks` ticks under `timing`.
pub fn clocks_to_duration(timing: &Timing, clocks: Ticks) -> (r: Duration)
    ensures
        r@ == clocks_nanos(*timing, clocks.0),
        r == duration_of(clocks_nanos(*timing, clocks.0)),
{
    let tempo = timing.microseconds_per_quarter_note as u128;
    let per_quarter = timing.ticks_per_quarter_note as u128;
    assert(clocks.0 as nat * tempo <= u64::MAX as nat * u32::MAX as nat) by (nonlinear_arith)
        requires
            clocks.0 <= u64::MAX,
            tempo <= u32::MAX,
    ;
    let scaled: u128 = clocks.0 as u128 * tempo * 1000;
    let nanos: u64 = if per_quarter == 0 {
        if scaled == 0 {
            0
        } else {
            u64::MAX
        }
    } else {
        let q = scaled / per_quarter;
        if q <= u64::MAX as u128 {
            q as u64
        } else {
            u64::MAX
        }
    };
    let r = Duration::from_total_nanos(nanos as u128);
    proof {
        lemma_duration_of(r);
    }
    r
}

/// The broad family of a General MIDI program number.
#[derive(Clone, Copy, Debug, PartialEq, Eq, Structural)]
pub enum InstrumentFamily {
    Piano,
    ChromaticPercussion,
    Organ,
    Guitar,
    Bass,
    Strings,
    Ensemble,
    Brass,
    Reed,
    Pipe,
    SynthLead,
    SynthPad,
    SynthEffects,
    Ethnic,
    Percussive,
    SoundEffects,
}

/// The family of the programs whose number divided by eight leaves `index`
/// modulo sixteen.
pub open spec fn family_at(index: int) -> InstrumentFamily {
    if index == 0 {
        InstrumentFamily::Piano
    } else if index == 1 {
        InstrumentFamily::ChromaticPercussion
    } else if index == 2 {
        InstrumentFamily::Organ
    } else if index == 3 {
        InstrumentFamily::Guitar
    } else if index == 4 {
        InstrumentFamily::Bass
    } else if index == 5 {
        InstrumentFamily::Strings
    } else if index == 6 {
        InstrumentFamily::Ensemble
    } else if index == 7 {
        InstrumentFamily::Brass
    } else if index == 8 {
        InstrumentFamily::Reed
    } else if index == 9 {
        InstrumentFamily::Pipe
    } else if index == 10 {
        InstrumentFamily::SynthLead
    } else if index == 11 {
        InstrumentFamily::SynthPad
    } else if index == 12 {
        InstrumentFamily::SynthEffects
    } else if index == 13 {
        InstrumentFamily::Ethnic
    } else if index == 14 {
        InstrumentFamily::Percussive
    } else {
        InstrumentFamily::SoundEffects
    }
}

impl InstrumentFamily {
    /// The family of a program: each family covers eight consecutive programs.
    pub fn from_program(program: u8) -> (r: InstrumentFamily)
        ensures
            r == family_at((program / 8) as int % 16),
    {
        let index: u8 = (program >> 3) & 0xF;
        assert(index == (program / 8) % 16) by (bit_vector)
            requires
                index == (program >> 3) & 0xF,
        ;
        match index {
            0 => InstrumentFamily::Piano,
            1 => InstrumentFamily::ChromaticPercussion,
            2 => InstrumentFamily::Organ,
            3 => InstrumentFamily::Guitar,
            4 => InstrumentFamily::Bass,
            5 => InstrumentFamily::Strings,
            6 => InstrumentFamily::Ensemble,
            7 => InstrumentFamily::Brass,
            8 => InstrumentFamily::Reed,
            9 => InstrumentFamily::Pipe,
            10 => InstrumentFamily::SynthLead,
            11 => InstrumentFamily::SynthPad,
            12 => InstrumentFamily::SynthEffects,
            13 => InstrumentFamily::Ethnic,
            14 => InstrumentFamily::Percussive,
            _ => InstrumentFamily::SoundEffects,
        }
    }
}

/// Relies on `String::from_utf8`: the text that the bytes encode, where they
/// are valid UTF-8.
#[verifier::external_body]
fn decode_text(bytes: &[u8]) -> (r: Option<String>)
    ensures
        r is Some <==> vstd::utf8::valid_utf8(bytes@),
        r is Some ==> r->0@ == vstd::utf8::decode_utf8(bytes@),
{
    String::from_utf8(bytes.to_vec()).ok()
}

/// The text of a meta event, or a placeholder where it is not valid UTF-8.
pub fn slice_to_text(text: &[u8]) -> (r: String)
    ensures
        vstd::utf8::valid_utf8(text@) ==> r@ == vstd::utf8::decode_utf8(text@),
        !vstd::utf8::valid_utf8(text@) ==> r@ == "<failed to decode text>"@,
{
    match decode_text(text) {
        Some(s) => s,
        None => String::from_str("<failed to decode text>"),
    }
}

/// One note of the schedule.
#[derive(Clone, Copy, Debug, PartialEq, Eq, Structural)]
pub struct Note {
    /// Wall-clock offset from the start of playback.
    pub start_offset: Duration,
    /// Channel, counted from one.
    pub channel: u8,
    pub track: usize,
    pub note: u8,
    pub duration: Duration,
    pub velocity: u8,
}

/// A change of tempo or time signature, with the timing in force after it.
#[derive(Clone, Copy, Debug, PartialEq, Eq, Structural)]
pub struct TimingChange {
    pub start_offset: Duration,
    pub timing: Timing,
}

/// An entry of the schedule.
#[derive(Clone, Copy, Debug, PartialEq, Eq, Structural)]
pub enum MusicalEvent {
    PlayNote(Note),
    TimingChange(TimingChange),
}

/// The wall-clock offset of an entry of the schedule.
pub open spec fn offset_of(e: MusicalEvent) -> Duration {
    match e {
        MusicalEvent::PlayNote(n) => n.start_offset,
        MusicalEvent::TimingChange(t) => t.start_offset,
    }
}

impl MusicalEvent {
    /// The wall-clock offset of the entry.
    pub fn start_offset(&self) -> (r: Duration)
        ensures
            r == offset_of(*self),
    {
        match self {
            MusicalEvent::PlayNote(n) => n.start_offset,
            MusicalEvent::TimingChange(t) => t.start_offset,
        }
    }
}

/// An event of a MIDI file, stamped in ticks from the start of its track.
#[derive(Clone, Copy, Debug, PartialEq, Eq, Structural, Hash)]
pub enum MidiEvent {
    PlayNote {
        track: usize,
        /// Channel, counted from one.
        channel: u8,
        note: u8,
        start: Ticks,
        duration: Ticks,
        velocity: u8,
    },
    ChangeTempo { new_tempo: u32, start: Ticks },
    ChangeTimeSignature { numerator: u8, denominator_exponent: u8, start: Ticks },
}

/// The tick at which a MIDI event starts.
pub open spec fn start_of(e: MidiEvent) -> u64 {
    match e {
        MidiEvent::PlayNote { start, .. } => start.0,
        MidiEvent::ChangeTempo { start, .. } => start.0,
        MidiEvent::ChangeTimeSignature { start, .. } => start.0,
    }
}

impl MidiEvent {
    /// The tick at which the event starts.
    pub fn start_tick(&self) -> (r: Ticks)
        ensures
            r.0 == start_of(*self),
    {
        match self {
            MidiEvent::PlayNote { start, .. } => *start,
            MidiEvent::ChangeTempo { start, .. } => *start,
            MidiEvent::ChangeTimeSignature { start, .. } => *start,
        }
    }
}

/// A note that has begun and not yet ended.
#[derive(Clone, Copy, Debug, PartialEq, Eq, Structural)]
pub struct StartOfNote {
    pub start: Ticks,
    pub velocity: u8,
}

/// A channel message, as the MIDI decoder reports it; channels count from zero.
#[derive(Clone, Copy, Debug, PartialEq, Eq, Structural)]
pub enum MidiMessage {
    NoteOn { ch: u8, note: u8, velocity: u8 },
    NoteOff { ch: u8, note: u8, velocity: u8 },
    ProgramChange { ch: u8, program: u8 },
    Other,
}

/// The kinds of meta event that ingestion tells apart.
#[derive(Clone, Copy, Debug, PartialEq, Eq, Structural)]
pub enum MetaKind {
    SetTempo,
    TimeSignature,
    Other,
}

/// The note that ends at tick `now` on `channel` (counted from zero), begun
/// as `begun` on `track`; `now` lies after the start.
pub open spec fn ended_note(track: usize, channel: u8, note: u8, begun: StartOfNote, now: u64) -> MidiEvent {
    MidiEvent::PlayNote {
        track,
        channel: (channel + 1) as u8,
        note,
        start: begun.start,
        duration: Ticks((now - begun.start.0) as u64),
        velocity: begun.velocity,
    }
}

/// Pending notes and emitted events after the note `(channel, note)` ends at
/// tick `now`: a pending note stops pending, and becomes one emitted note
/// where `now` lies after its start. A note that would last no ticks (it ends
/// on the tick it began, or in a later track at an earlier tick) is dropped.
pub open spec fn after_note_end(
    pending: Map<(u8, u8), StartOfNote>,
    events: Seq<MidiEvent>,
    track: usize,
    channel: u8,
    note: u8,
    now: u64,
) -> (Map<(u8, u8), StartOfNote>, Seq<MidiEvent>) {
    if pending.contains_key((channel, note)) {
        let begun = pending[(channel, note)];
        (
            pending.remove((channel, note)),
            if begun.start.0 < now {
                events.push(ended_note(track, channel, note, begun, now))
            } else {
                events
            },
        )
    } else {
        (pending, events)
    }
}

/// Pending notes and emitted events after the note `(channel, note)` begins
/// at tick `now`: a note still sounding on that key ends first.
pub open spec fn after_note_begin(
    pending: Map<(u8, u8), StartOfNote>,
    events: Seq<MidiEvent>,
    track: usize,
    channel: u8,
    note: u8,
    velocity: u8,
    now: u64,
) -> (Map<(u8, u8), StartOfNote>, Seq<MidiEvent>) {
    let ended = after_note_end(pending, events, track, channel, note, now);
    (ended.0.insert((channel, note), StartOfNote { start: Ticks(now), velocity }), ended.1)
}

/// Pending notes and emitted events after a channel message at tick `now`: a
/// note-on with a velocity begins a note, and a note-off or a note-on without
/// velocity ends one; other messages change nothing.
pub open spec fn after_message(
    pending: Map<(u8, u8), StartOfNote>,
    events: Seq<MidiEvent>,
    track: usize,
    message: MidiMessage,
    now: u64,
) -> (Map<(u8, u8), StartOfNote>, Seq<MidiEvent>) {
    match message {
        MidiMessage::NoteOn { ch, note, velocity } => if velocity != 0 {
            after_note_begin(pending, events, track, ch, note, velocity, now)
        } else {
            after_note_end(pending, events, track, ch, note, now)
        },
        MidiMessage::NoteOff { ch, note, .. } => after_note_end(pending, events, track, ch, note, now),
        _ => (pending, events),
    }
}

/// A note pending since tick `s`, on a key that a note-off (or a note-on
/// without velocity) ends `delta` ticks after tick `current`, with
/// `t = current + delta` after `s`, becomes exactly one emitted note from `s`
/// to `t` and stops pending. A note-on with a velocity on that key splits the
/// sounding note the same way, and a new note is pending from `t`.
pub proof fn lemma_note_spans_its_interval(
    pending: Map<(u8, u8), StartOfNote>,
    events: Seq<MidiEvent>,
    track: usize,
    current: u64,
    delta: u32,
    message: MidiMessage,
)
    requires
        current + delta <= u64::MAX,
        match message {
            MidiMessage::NoteOn { ch, note, .. } => ch < 16 && pending.contains_key((ch, note))
                && pending[(ch, note)].start.0 < current + delta,
            MidiMessage::NoteOff { ch, note, .. } => ch < 16 && pending.contains_key((ch, note))
                && pending[(ch, note)].start.0 < current + delta,
            _ => false,
        },
    ensures
        ({
            let t = advanced(current, delta);
            let (ch, note) = match message {
                MidiMessage::NoteOn { ch, note, .. } => (ch, note),
                MidiMessage::NoteOff { ch, note, .. } => (ch, note),
                _ => (0u8, 0u8),
            };
            let begun = pending[(ch, note)];
            let after = after_message(pending, events, track, message, t);
            &&& t == current + delta
            &&& after.1.len() == events.len() + 1
            &&& after.1.drop_last() == events
            &&& after.1.last() == (MidiEvent::PlayNote {
                track,
                channel: (ch + 1) as u8,
                note,
                start: begun.start,
                duration: Ticks((t - begun.start.0) as u64),
                velocity: begun.velocity,
            })
            &&& begun.start.0 + (t - begun.start.0) == t
            &&& match message {
                MidiMessage::NoteOn { velocity, .. } if velocity != 0 => after.0[(ch, note)] == (
                StartOfNote { start: Ticks(t), velocity }),
                _ => !after.0.contains_key((ch, note)),
            }
        }),
{
    let t = advanced(current, delta);
    let after = after_message(pending, events, track, message, t);
    assert(after.1.drop_last() =~= events);
}

/// The big-endian 24-bit number in three bytes.
pub open spec fn tempo_of(data: Seq<u8>) -> u32 {
    (data[0] as nat * 65536 + data[1] as nat * 256 + data[2] as nat) as u32
}

/// Events after a meta event at tick `now`: a tempo of three bytes or a time
/// signature of four adds one event; anything else adds none.
pub open spec fn after_meta(events: Seq<MidiEvent>, kind: MetaKind, data: Seq<u8>, now: u64) -> Seq<MidiEvent> {
    match kind {
        MetaKind::SetTempo => if data.len() == 3 {
            events.push(MidiEvent::ChangeTempo { new_tempo: tempo_of(data), start: Ticks(now) })
        } else {
            events
        },
        MetaKind::TimeSignature => if data.len() == 4 {
            events.push(
                MidiEvent::ChangeTimeSignature {
                    numerator: data[0],
                    denominator_exponent: data[1],
                    start: Ticks(now),
                },
            )
        } else {
            events
        },
        MetaKind::Other => events,
    }
}

/// `now + delta`, or the largest tick where that overflows.
pub open spec fn advanced(now: u64, delta: u32) -> u64 {
    if now + delta <= u64::MAX {
        (now + delta) as u64
    } else {
        u64::MAX
    }
}

/// The key under which a pending note is kept.
pub open spec fn note_key(channel: u8, note: u8) -> u16 {
    (channel as nat * 256 + note as nat) as u16
}

proof fn lemma_note_key_injective(c1: u8, n1: u8, c2: u8, n2: u8)
    ensures
        note_key(c1, n1) == note_key(c2, n2) ==> c1 == c2 && n1 == n2,
{
}

/// The priority of the event at `index`: the earliest tick comes out of the
/// queue first, and among equal ticks the event that came first.
pub open spec fn event_priority(e: MidiEvent, index: u64) -> (u64, u64) {
    ((u64::MAX - start_of(e)) as u64, (u64::MAX - index) as u64)
}

/// Accumulates what a MIDI decoder reports into notes and timing changes.
pub struct Handler {
    verbose: bool,
    division: u16,
    current_time: Ticks,
    current_track: usize,
    book_keeping: HashMap<u16, StartOfNote>,
    events: Vec<MidiEvent>,
    order: EventQueue,
}

impl Handler {
    /// Whether the handler's state is consistent.
    pub closed spec fn wf(&self) -> bool {
        let contents = queue_contents(self.order);
        &&& contents.dom().finite()
        &&& contents.dom().len() == self.events@.len()
        &&& forall|i: u64| #[trigger] contents.contains_key(i) <==> (i as int) < self.events@.len()
        &&& forall|i: u64|
            (i as int) < self.events@.len() ==> #[trigger] contents[i] == event_priority(
                self.events@[i as int],
                i,
            )
    }

    /// The tick reached in the current track.
    pub closed spec fn current_tick(&self) -> u64 {
        self.current_time.0
    }

    /// The number of the current track, counted from zero.
    pub closed spec fn track(&self) -> usize {
        self.current_track
    }

    /// Ticks per quarter note, as the file's header gives it.
    pub closed spec fn ticks_per_quarter(&self) -> u16 {
        self.division
    }

    /// Whether the caller asked for verbose reports.
    pub closed spec fn verbose_spec(&self) -> bool {
        self.verbose
    }

    /// Notes begun and not yet ended, by channel (counted from zero) and note.
    pub closed spec fn pending(&self) -> Map<(u8, u8), StartOfNote> {
        Map::new(
            |k: (u8, u8)| self.book_keeping@.contains_key(note_key(k.0, k.1)),
            |k: (u8, u8)| self.book_keeping@[note_key(k.0, k.1)],
        )
    }

    /// The events emitted so far, in the order they were emitted.
    pub closed spec fn raw_events(&self) -> Seq<MidiEvent> {
        self.events@
    }

    /// A handler at the start of a file.
    pub fn new(verbose: bool) -> (r: Handler)
        ensures
            r.wf(),
            r.verbose_spec() == verbose,
            r.current_tick() == 0,
            r.track() == 0,
            r.ticks_per_quarter() == 0,
            r.pending() == Map::<(u8, u8), StartOfNote>::empty(),
            r.raw_events() == Seq::<MidiEvent>::empty(),
    {
        let r = Handler {
            verbose,
            division: 0,
            current_time: Ticks(0),
            current_track: 0,
            book_keeping: HashMap::new(),
            events: Vec::new(),
            order: queue_new(),
        };
        assert(r.pending() =~= Map::<(u8, u8), StartOfNote>::empty());
        r
    }

    /// Whether the caller asked for verbose reports.
    pub fn is_verbose(&self) -> (r: bool)
        ensures
            r == self.verbose_spec(),
    {
        self.verbose
    }

    /// Ticks per quarter note, as the file's header gave it.
    pub fn get_division(&self) -> (r: u16)
        ensures
            r == self.ticks_per_quarter(),
    {
        self.division
    }

    /// The tick reached in the current track.
    pub fn current_time(&self) -> (r: Ticks)
        ensures
            r.0 == self.current_tick(),
    {
        self.current_time
    }

    /// The number of the current track, counted from zero.
    pub fn current_track(&self) -> (r: usize)
        ensures
            r == self.track(),
    {
        self.current_track
    }

    fn push_event(&mut self, e: MidiEvent)
        requires
            old(self).wf(),
        ensures
            final(self).wf(),
            final(self).raw_events() == old(self).raw_events().push(e),
            final(self).pending() == old(self).pending(),
            final(self).current_tick() == old(self).current_tick(),
            final(self).track() == old(self).track(),
            final(self).ticks_per_quarter() == old(self).ticks_per_quarter(),
            final(self).verbose_spec() == old(self).verbose_spec(),
    {
        let index = self.events.len() as u64;
        let priority = (u64::MAX - e.start_tick().0, u64::MAX - index);
        queue_push(&mut self.order, index, priority);
        self.events.push(e);
        proof {
            let contents = queue_contents(self.order);
            assert(contents.dom() =~= queue_contents(old(self).order).dom().insert(index));
            assert forall|i: u64| (i as int) < self.events@.len() implies #[trigger] contents[i]
                == event_priority(self.events@[i as int], i) by {
                if i != index {
                    assert(self.events@[i as int] == old(self).events@[i as int]);
                }
            }
        }
    }

    fn advance_time(&mut self, delta_time: u32)
        requires
            old(self).wf(),
        ensures
            final(self).wf(),
            final(self).current_tick() == advanced(old(self).current_tick(), delta_time),
            final(self).raw_events() == old(self).raw_events(),
            final(self).pending() == old(self).pending(),
            final(self).track() == old(self).track(),
            final(self).ticks_per_quarter() == old(self).ticks_per_quarter(),
            final(self).verbose_spec() == old(self).verbose_spec(),
    {
        self.current_time = Ticks(self.current_time.0.saturating_add(delta_time as u64));
    }

    fn set_tempo(&mut self, new_tempo: u32)
        requires
            old(self).wf(),
        ensures
            final(self).wf(),
            final(self).raw_events() == old(self).raw_events().push(
                MidiEvent::ChangeTempo { new_tempo, start: Ticks(old(self).current_tick()) },
            ),
            final(self).pending() == old(self).pending(),
            final(self).current_tick() == old(self).current_tick(),
            final(self).track() == old(self).track(),
            final(self).ticks_per_quarter() == old(self).ticks_per_quarter(),
            final(self).verbose_spec() == old(self).verbose_spec(),
    {
        let start = self.current_time;
        self.push_event(MidiEvent::ChangeTempo { new_tempo, start });
    }

    fn set_time_signature(&mut self, numerator: u8, denominator_exponent: u8)
        requires
            old(self).wf(),
        ensures
            final(self).wf(),
            final(self).raw_events() == old(self).raw_events().push(
                MidiEvent::ChangeTimeSignature {
                    numerator,
                    denominator_exponent,
                    start: Ticks(old(self).current_tick()),
                },
            ),
            final(self).pending() == old(self).pending(),
            final(self).current_tick() == old(self).current_tick(),
            final(self).track() == old(self).track(),
            final(self).ticks_per_quarter() == old(self).ticks_per_quarter(),
            final(self).verbose_spec() == old(self).verbose_spec(),
    {
        let start = self.current_time;
        self.push_event(MidiEvent::ChangeTimeSignature { numerator, denominator_exponent, start });
    }

    fn note_begun(&mut self, channel: u8, note: u8, velocity: u8)
        requires
            old(self).wf(),
            channel < 16,
        ensures
            final(self).wf(),
            (final(self).pending(), final(self).raw_events()) == after_note_begin(
                old(self).pending(),
                old(self).raw_events(),
                old(self).track(),
                channel,
                note,
                velocity,
                old(self).current_tick(),
            ),
            final(self).current_tick() == old(self).current_tick(),
            final(self).track() == old(self).track(),
            final(self).ticks_per_quarter() == old(self).ticks_per_quarter(),
            final(self).verbose_spec() == old(self).verbose_spec(),
    {
        let key: u16 = channel as u16 * 256 + note as u16;
        if self.book_keeping.contains_key(&key) {
            self.note_ended(channel, note);
        }
        let ghost mid = self.pending();
        self.book_keeping.insert(key, StartOfNote { start: self.current_time, velocity });
        proof {
            assert forall|k: (u8, u8)| true implies (note_key(k.0, k.1) == key <==> k == (channel, note)) by {
                lemma_note_key_injective(k.0, k.1, channel, note);
            }
            assert(self.pending() =~= mid.insert(
                (channel, note),
                StartOfNote { start: self.current_time, velocity },
            ));
        }
    }

    fn note_ended(&mut self, channel: u8, note: u8)
        requires
            old(self).wf(),
            channel < 16,
        ensures
            final(self).wf(),
            (final(self).pending(), final(self).raw_events()) == after_note_end(
                old(self).pending(),
                old(self).raw_events(),
                old(self).track(),
                channel,
                note,
                old(self).current_tick(),
            ),
            final(self).current_tick() == old(self).current_tick(),
            final(self).track() == old(self).track(),
            final(self).ticks_per_quarter() == old(self).ticks_per_quarter(),
            final(self).verbose_spec() == old(self).verbose_spec(),
    {
        let key: u16 = channel as u16 * 256 + note as u16;
        proof {
            assert forall|k: (u8, u8)| true implies (note_key(k.0, k.1) == key <==> k == (channel, note)) by {
                lemma_note_key_injective(k.0, k.1, channel, note);
            }
        }
        match self.book_keeping.get(&key) {
            Some(begun) => {
                let begun = *begun;
                let now = self.current_time.0;
                let ghost before = self.pending();
                if begun.start.0 < now {
                    let played = MidiEvent::PlayNote {
                        track: self.current_track,
                        note,
                        channel: channel + 1,
                        start: begun.start,
                        duration: Ticks(now - begun.start.0),
                        velocity: begun.velocity,
                    };
                    self.push_event(played);
                }
                self.book_keeping.remove(&key);
                proof {
                    assert(self.pending() =~= before.remove((channel, note)));
                }
            },
            None => {},
        }
    }

    /// Handles the file's header: the time base is the number of ticks per
    /// quarter note.
    pub fn header(&mut self, format: u16, track: u16, time_base: u16)
        requires
            old(self).wf(),
        ensures
            final(self).wf(),
            final(self).ticks_per_quarter() == time_base,
            final(self).raw_events() == old(self).raw_events(),
            final(self).pending() == old(self).pending(),
            final(self).current_tick() == old(self).current_tick(),
            final(self).track() == old(self).track(),
            final(self).verbose_spec() == old(self).verbose_spec(),
    {
        self.division = time_base;
    }

    /// Handles a meta event: a tempo or a time signature becomes an event at
    /// the current tick, and then the time advances by `delta_time`. Returns
    /// false where a tempo is not three bytes long or a time signature not four.
    pub fn meta_event(&mut self, delta_time: u32, event: MetaKind, data: &[u8]) -> (ok: bool)
        requires
            old(self).wf(),
        ensures
            final(self).wf(),
            ok == !((event == MetaKind::SetTempo && data@.len() != 3) || (event
                == MetaKind::TimeSignature && data@.len() != 4)),
            final(self).raw_events() == after_meta(
                old(self).raw_events(),
                event,
                data@,
                old(self).current_tick(),
            ),
            final(self).current_tick() == advanced(old(self).current_tick(), delta_time),
            final(self).pending() == old(self).pending(),
            final(self).track() == old(self).track(),
            final(self).ticks_per_quarter() == old(self).ticks_per_quarter(),
            final(self).verbose_spec() == old(self).verbose_spec(),
    {
        let ok = match event {
            MetaKind::SetTempo => {
                if data.len() == 3 {
                    let tempo = (data[0] as u32) * 65536 + (data[1] as u32) * 256 + data[2] as u32;
                    self.set_tempo(tempo);
                    true
                } else {
                    false
                }
            },
            MetaKind::TimeSignature => {
                if data.len() == 4 {
                    self.set_time_signature(data[0], data[1]);
                    true
                } else {
                    false
                }
            },
            MetaKind::Other => true,
        };
        self.advance_time(delta_time);
        ok
    }

    /// Handles a channel message: the time advances by `delta_time`, then a
    /// note-on with a velocity begins a note, and a note-off or a note-on
    /// without velocity ends one.
    pub fn midi_event(&mut self, delta_time: u32, event: MidiMessage)
        requires
            old(self).wf(),
            event matches MidiMessage::NoteOn { ch, .. } ==> ch < 16,
            event matches MidiMessage::NoteOff { ch, .. } ==> ch < 16,
        ensures
            final(self).wf(),
            (final(self).pending(), final(self).raw_events()) == after_message(
                old(self).pending(),
                old(self).raw_events(),
                old(self).track(),
                event,
                advanced(old(self).current_tick(), delta_time),
            ),
            final(self).current_tick() == advanced(old(self).current_tick(), delta_time),
            final(self).track() == old(self).track(),
            final(self).ticks_per_quarter() == old(self).ticks_per_quarter(),
            final(self).verbose_spec() == old(self).verbose_spec(),
    {
        self.advance_time(delta_time);
        match event {
            MidiMessage::NoteOn { ch, note, velocity } => {
                if velocity != 0 {
                    self.note_begun(ch, note, velocity);
                } else {
                    self.note_ended(ch, note);
                }
            },
            MidiMessage::NoteOff { ch, note, .. } => {
                self.note_ended(ch, note);
            },
            _ => {},
        }
    }

    /// Handles a system-exclusive event: only the time advances.
    pub fn sys_ex_event(&mut self, delta_time: u32)
        requires
            old(self).wf(),
        ensures
            final(self).wf(),
            final(self).current_tick() == advanced(old(self).current_tick(), delta_time),
            final(self).raw_events() == old(self).raw_events(),
            final(self).pending() == old(self).pending(),
            final(self).track() == old(self).track(),
            final(self).ticks_per_quarter() == old(self).ticks_per_quarter(),
            final(self).verbose_spec() == old(self).verbose_spec(),
    {
        self.advance_time(delta_time);
    }

    /// Handles the start of the next track: the tick goes back to zero and the
    /// track number goes up by one. Pending notes carry over.
    pub fn track_change(&mut self)
        requires
            old(self).wf(),
        ensures
            final(self).wf(),
            final(self).current_tick() == 0,
            final(self).track() == if old(self).track() < usize::MAX {
                (old(self).track() + 1) as usize
            } else {
                usize::MAX
            },
            final(self).raw_events() == old(self).raw_events(),
            final(self).pending() == old(self).pending(),
            final(self).ticks_per_quarter() == old(self).ticks_per_quarter(),
            final(self).verbose_spec() == old(self).verbose_spec(),
    {
        self.current_time = Ticks(0);
        self.current_track = self.current_track.saturating_add(1);
    }
}

/// `order` lists the indices of `raw` by start tick, and among equal ticks in
/// the order the events came: the stable sort of `raw` by start tick.
pub open spec fn in_start_order(raw: Seq<MidiEvent>, order: Seq<int>) -> bool {
    &&& order.len() == raw.len()
    &&& forall|k: int| 0 <= k < order.len() ==> 0 <= #[trigger] order[k] < raw.len()
    &&& forall|i: int, j: int|
        0 <= i < j < order.len() ==> {
            ||| start_of(raw[order[i]]) < start_of(raw[order[j]])
            ||| (start_of(raw[order[i]]) == start_of(raw[order[j]]) && order[i] < order[j])
        }
}

/// `sorted` holds the events of `raw` sorted stably by start tick.
pub open spec fn is_stable_sort_by_start(raw: Seq<MidiEvent>, sorted: Seq<MidiEvent>) -> bool {
    exists|order: Seq<int>|
        in_start_order(raw, order) && sorted == order.map_values(|i: int| raw[i])
}

impl Handler {
    /// The emitted events sorted by start tick, keeping the order of emission
    /// among events of one tick.
    pub fn into_music(self) -> (r: Vec<MidiEvent>)
        requires
            self.wf(),
        ensures
            is_stable_sort_by_start(self.raw_events(), r@),
    {
        let ghost raw = self.raw_events();
        let Handler { events, order, .. } = self;
        let ghost contents = queue_contents(order);
        let sorted = queue_into_sorted_vec(order);
        let ghost idx: Seq<int> = sorted@.map_values(|i: u64| i as int);
        let mut music: Vec<MidiEvent> = Vec::new();
        let mut k: usize = 0;
        while k < sorted.len()
            invariant
                k <= sorted@.len(),
                music@.len() == k,
                raw == events@,
                sorted@.len() == raw.len(),
                forall|m: int| 0 <= m < sorted@.len() ==> (#[trigger] sorted@[m] as int) < raw.len(),
                forall|m: int| 0 <= m < k ==> #[trigger] music@[m] == raw[sorted@[m] as int],
            decreases sorted@.len() - k,
        {
            let i = sorted[k];
            music.push(events[i as usize]);
            k += 1;
        }
        proof {
            assert forall|m: int| 0 <= m < sorted@.len() implies (#[trigger] sorted@[m] as int) < raw.len() by {
                assert(contents.contains_key(sorted@[m]));
            }
            assert forall|i: int, j: int| 0 <= i < j < idx.len() implies {
                ||| start_of(raw[idx[i]]) < start_of(raw[idx[j]])
                ||| (start_of(raw[idx[i]]) == start_of(raw[idx[j]]) && idx[i] < idx[j])
            } by {
                let a = sorted@[i];
                let b = sorted@[j];
                assert(contents.contains_key(a));
                assert(contents.contains_key(b));
                assert(pair_le(contents[b], contents[a]));
                assert(a != b);
            }
            assert(in_start_order(raw, idx));
            assert(music@ =~= idx.map_values(|i: int| raw[i]));
        }
        music
    }
}

/// Where ingestion stands after some events: the timing in force, the tick of
/// the last event, and its wall-clock offset in nanoseconds.
pub open spec fn resolve_state(ticks_per_quarter: u16, midi: Seq<MidiEvent>) -> (Timing, u64, nat)
    decreases midi.len(),
{
    if midi.len() == 0 {
        (default_timing(ticks_per_quarter), 0, 0)
    } else {
        let before = resolve_state(ticks_per_quarter, midi.drop_last());
        let e = midi.last();
        (timing_after(before.0, e), start_of(e), offset_at(before, e))
    }
}

/// Ticks from `last` to `start`, or none where `start` comes first.
pub open spec fn ticks_between(last: u64, start: u64) -> u64 {
    if start >= last {
        (start - last) as u64
    } else {
        0
    }
}

/// `a + b`, or the largest duration where that is longer.
pub open spec fn capped_sum(a: nat, b: nat) -> nat {
    if a + b <= crate::convert_duration::max_duration_nanos() {
        a + b
    } else {
        crate::convert_duration::max_duration_nanos()
    }
}

/// The wall-clock offset of `e`, in nanoseconds, after events that left `before`.
pub open spec fn offset_at(before: (Timing, u64, nat), e: MidiEvent) -> nat {
    capped_sum(before.2, clocks_nanos(before.0, ticks_between(before.1, start_of(e))))
}

/// The timing in force after `e`.
pub open spec fn timing_after(timing: Timing, e: MidiEvent) -> Timing {
    match e {
        MidiEvent::PlayNote { .. } => timing,
        MidiEvent::ChangeTempo { new_tempo, .. } => Timing {
            microseconds_per_quarter_note: new_tempo,
            ..timing
        },
        MidiEvent::ChangeTimeSignature { numerator, denominator_exponent, .. } => Timing {
            time_signature_numerator: numerator,
            time_signature_denominator_exponent: denominator_exponent,
            ..timing
        },
    }
}

/// The schedule entry for `e`, after events that left `before`. A note's
/// length is converted at the tempo in force where it starts.
pub open spec fn resolved_event(before: (Timing, u64, nat), e: MidiEvent) -> MusicalEvent {
    let start_offset = duration_of(offset_at(before, e));
    match e {
        MidiEvent::PlayNote { track, channel, note, duration, velocity, .. } => MusicalEvent::PlayNote(
            Note {
                start_offset,
                track,
                channel,
                note,
                duration: duration_of(clocks_nanos(before.0, duration.0)),
                velocity,
            },
        ),
        _ => MusicalEvent::TimingChange(
            TimingChange { start_offset, timing: timing_after(before.0, e) },
        ),
    }
}

/// The schedule of a piece: entries in wall-clock order.
pub struct Music {
    events: Vec<MusicalEvent>,
}

impl View for Music {
    type V = Seq<MusicalEvent>;

    closed spec fn view(&self) -> Seq<MusicalEvent> {
        self.events@
    }
}

impl Music {
    /// The entries of the schedule.
    pub fn events(&self) -> (r: &[MusicalEvent])
        ensures
            r@ == self@,
    {
        self.events.as_slice()
    }
}

/// Offsets of the schedule never decrease.
pub open spec fn offsets_non_decreasing(events: Seq<MusicalEvent>) -> bool {
    forall|i: int, j: int| 0 <= i <= j < events.len() ==> offset_of(events[i])@ <= offset_of(events[j])@
}

/// The schedule entry of every event of `midi`, in order.
pub open spec fn resolved_all(ticks_per_quarter: u16, midi: Seq<MidiEvent>) -> Seq<MusicalEvent> {
    Seq::new(
        midi.len(),
        |i: int| resolved_event(resolve_state(ticks_per_quarter, midi.take(i)), midi[i]),
    )
}

/// Whether an entry stays in the schedule: every note lasts longer than zero.
pub open spec fn lasts(e: MusicalEvent) -> bool {
    e matches MusicalEvent::PlayNote(n) ==> n.duration@ > 0
}

/// The schedule of the events of a file, given sorted by start tick, with
/// `ticks_per_quarter` ticks per quarter note: each event's offset is the
/// offset of the one before plus the ticks between them at the tempo in force.
/// Notes whose length comes to zero nanoseconds are left out; they still
/// count in the offsets of the events after them.
pub fn resolve_music(ticks_per_quarter: u16, midi: &[MidiEvent]) -> (r: Music)
    ensures
        r@ == resolved_all(ticks_per_quarter, midi@).filter(|e: MusicalEvent| lasts(e)),
        forall|i: int| 0 <= i < r@.len() ==> lasts(#[trigger] r@[i]),
        offsets_non_decreasing(r@),
{
    let ghost all = resolved_all(ticks_per_quarter, midi@);
    let ghost keep = |e: MusicalEvent| lasts(e);
    let mut timing = Timing::new(ticks_per_quarter);
    let mut last_start_tick: u64 = 0;
    let mut offset = Duration::zero();
    let mut events: Vec<MusicalEvent> = Vec::new();
    let mut k: usize = 0;
    while k < midi.len()
        invariant
            k <= midi@.len(),
            all == resolved_all(ticks_per_quarter, midi@),
            keep == (|e: MusicalEvent| lasts(e)),
            resolve_state(ticks_per_quarter, midi@.take(k as int)) == (timing, last_start_tick, offset@),
            offset.is_normalized(),
            events@ == all.take(k as int).filter(keep),
            forall|i: int| 0 <= i < events@.len() ==> lasts(#[trigger] events@[i]),
            forall|i: int| 0 <= i < events@.len() ==> offset_of(#[trigger] events@[i])@ <= offset@,
            offsets_non_decreasing(events@),
        decreases midi@.len() - k,
    {
        let event = midi[k];
        let start_tick = event.start_tick();
        let delta_ticks = Ticks(start_tick.0.saturating_sub(last_start_tick));
        let delta_time = clocks_to_duration(&timing, delta_ticks);
        last_start_tick = start_tick.0;
        let start_offset = offset.saturating_add(delta_time);
        offset = start_offset;
        proof {
            lemma_duration_of(start_offset);
            assert(midi@.take(k + 1).drop_last() =~= midi@.take(k as int));
            assert(midi@.take(k + 1).last() == midi@[k as int]);
            assert(all.take(k + 1) =~= all.take(k as int).push(all[k as int]));
            all.take(k as int).lemma_filter_push(all[k as int], keep);
        }
        match event {
            MidiEvent::PlayNote { track, channel, note, duration, velocity, .. } => {
                let duration = clocks_to_duration(&timing, duration);
                if duration.total_nanos() > 0 {
                    events.push(
                        MusicalEvent::PlayNote(
                            Note { start_offset, track, channel, note, duration, velocity },
                        ),
                    );
                }
            },
            MidiEvent::ChangeTempo { new_tempo, .. } => {
                timing.microseconds_per_quarter_note = new_tempo;
                events.push(MusicalEvent::TimingChange(TimingChange { start_offset, timing }));
            },
            MidiEvent::ChangeTimeSignature { numerator, denominator_exponent, .. } => {
                timing.time_signature_numerator = numerator;
                timing.time_signature_denominator_exponent = denominator_exponent;
                events.push(MusicalEvent::TimingChange(TimingChange { start_offset, timing }));
            },
        }
        k += 1;
    }
    proof {
        assert(all.take(k as int) =~= all);
    }
    Music { events }
}

} // verus!
