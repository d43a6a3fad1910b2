//! Each client plays a band of adjacent notes; the bands are cut so that each
//! holds about as many notes of the piece as the others.
use crate::connection::{ClientInfo, ClientUID};
use crate::midi::{MusicalEvent, Note};
use crate::policies::ClientSelectionPolicy;
use vstd::prelude::*;

verus! {

/// The number of MIDI note numbers a `u8` can hold.
pub const NOTE_NUMBERS: usize = 256;

/// How many notes of `events` play note number `note`.
pub open spec fn note_count(events: Seq<MusicalEvent>, note: int) -> nat
    decreases events.len(),
{
    if events.len() == 0 {
        0
    } else {
        note_count(events.drop_last(), note) + match events.last() {
            MusicalEvent::PlayNote(n) => if n.note == note {
                1nat
            } else {
                0nat
            },
            _ => 0nat,
        }
    }
}

/// How many notes `events` holds.
pub open spec fn total_notes(events: Seq<MusicalEvent>) -> nat
    decreases events.len(),
{
    if events.len() == 0 {
        0
    } else {
        total_notes(events.drop_last()) + if events.last() is PlayNote {
            1nat
        } else {
            0nat
        }
    }
}

/// The sum of the first `n` counts.
pub open spec fn count_sum(counts: Seq<usize>, n: int) -> nat
    decreases n,
{
    if n <= 0 {
        0
    } else {
        count_sum(counts, n - 1) + counts[n - 1] as nat
    }
}

/// A band of notes, `lowest` to `highest` inclusive, and the client that plays it.
#[derive(Clone, Copy, Debug, PartialEq, Eq, Structural)]
pub struct FrequencyRangeAssignment {
    pub lowest: u8,
    pub highest: u8,
    pub client: ClientUID,
}

/// The bands cut from the counts of the first `n` note numbers, with the
/// number of notes in the last band. Note numbers no note plays are skipped;
/// a band is closed once it holds `ideal` notes or more, and each new band
/// goes to the next client in turn.
pub open spec fn freq_ranges(counts: Seq<usize>, n: int, ideal: int, clients: Seq<ClientInfo>) -> (
    Seq<FrequencyRangeAssignment>,
    int,
)
    decreases n,
{
    if n <= 0 {
        (Seq::empty(), 0)
    } else {
        let before = freq_ranges(counts, n - 1, ideal, clients);
        let rs = before.0;
        let c = counts[n - 1];
        if c == 0 {
            before
        } else if rs.len() == 0 || before.1 >= ideal {
            (
                rs.push(
                    FrequencyRangeAssignment {
                        lowest: (n - 1) as u8,
                        highest: (n - 1) as u8,
                        client: clients[rs.len() as int % clients.len() as int].uid,
                    },
                ),
                c as int,
            )
        } else {
            (
                rs.update(
                    rs.len() - 1,
                    FrequencyRangeAssignment { highest: (n - 1) as u8, ..rs.last() },
                ),
                before.1 + c,
            )
        }
    }
}

/// The number of notes each band aims at: the notes per client, divided by
/// the spread.
pub open spec fn ideal_per_client(total: nat, clients: nat, spread: nat) -> int {
    (total / clients) as int / spread as int
}

/// The bands for a histogram of 256 counts, `clients` and `spread`.
pub open spec fn frequency_assignments(counts: Seq<usize>, clients: Seq<ClientInfo>, spread: nat) -> Seq<
    FrequencyRangeAssignment,
> {
    if clients.len() == 0 {
        Seq::empty()
    } else {
        freq_ranges(
            counts,
            NOTE_NUMBERS as int,
            ideal_per_client(count_sum(counts, NOTE_NUMBERS as int), clients.len(), spread),
            clients,
        ).0
    }
}

/// The clients of the bands that hold `note`, in the order of the bands.
pub open spec fn covering_clients(rs: Seq<FrequencyRangeAssignment>, note: u8) -> Seq<ClientUID>
    decreases rs.len(),
{
    if rs.len() == 0 {
        Seq::empty()
    } else {
        let before = covering_clients(rs.drop_last(), note);
        if rs.last().lowest <= note <= rs.last().highest {
            before.push(rs.last().client)
        } else {
            before
        }
    }
}

proof fn lemma_count_sum_update(counts: Seq<usize>, j: int, v: usize, n: int)
    requires
        0 <= j < counts.len(),
        n <= counts.len(),
    ensures
        count_sum(counts.update(j, v), n) + (if j < n { counts[j] as int } else { 0 }) == count_sum(
            counts,
            n,
        ) + (if j < n { v as int } else { 0 }),
    decreases n,
{
    if n > 0 {
        lemma_count_sum_update(counts, j, v, n - 1);
        assert(counts.update(j, v)[n - 1] == if j == n - 1 { v } else { counts[n - 1] });
    }
}

proof fn lemma_count_sum_monotone(counts: Seq<usize>, m: int, n: int)
    requires
        0 <= m <= n,
    ensures
        count_sum(counts, m) <= count_sum(counts, n),
    decreases n - m,
{
    if m < n {
        lemma_count_sum_monotone(counts, m, n - 1);
    }
}

/// How many notes of `events` play each note number, and how many notes it holds.
pub fn build_histogram(events: &[MusicalEvent]) -> (r: Vec<usize>)
    ensures
        r@.len() == NOTE_NUMBERS,
        forall|n: int| 0 <= n < NOTE_NUMBERS ==> #[trigger] r@[n] == note_count(events@, n),
        count_sum(r@, NOTE_NUMBERS as int) == total_notes(events@),
        total_notes(events@) <= events@.len(),
{
    let mut result: Vec<usize> = Vec::new();
    let mut n: usize = 0;
    while n < NOTE_NUMBERS
        invariant
            n <= NOTE_NUMBERS,
            result@.len() == n,
            forall|m: int| 0 <= m < n ==> #[trigger] result@[m] == 0,
        decreases NOTE_NUMBERS - n,
    {
        result.push(0);
        n += 1;
    }
    proof {
        assert forall|m: int| 0 <= m <= NOTE_NUMBERS implies #[trigger] count_sum(result@, m) == 0 by {
            lemma_zero_sum(result@, m);
        }
    }
    let mut i: usize = 0;
    while i < events.len()
        invariant
            i <= events@.len(),
            result@.len() == NOTE_NUMBERS,
            forall|m: int|
                0 <= m < NOTE_NUMBERS ==> #[trigger] result@[m] == note_count(events@.take(i as int), m),
            forall|m: int| 0 <= m < NOTE_NUMBERS ==> #[trigger] result@[m] <= i,
            count_sum(result@, NOTE_NUMBERS as int) == total_notes(events@.take(i as int)),
            total_notes(events@.take(i as int)) <= i,
        decreases events@.len() - i,
    {
        proof {
            assert(events@.take(i + 1).drop_last() =~= events@.take(i as int));
        }
        match &events[i] {
            MusicalEvent::PlayNote(note) => {
                let k = note.note as usize;
                let bumped = result[k] + 1;
                proof {
                    lemma_count_sum_update(result@, k as int, bumped, NOTE_NUMBERS as int);
                }
                result.set(k, bumped);
            },
            _ => {},
        }
        i += 1;
    }
    proof {
        assert(events@.take(i as int) =~= events@);
    }
    result
}

proof fn lemma_zero_sum(counts: Seq<usize>, m: int)
    requires
        0 <= m <= counts.len(),
        forall|k: int| 0 <= k < counts.len() ==> #[trigger] counts[k] == 0,
    ensures
        count_sum(counts, m) == 0,
    decreases m,
{
    if m > 0 {
        lemma_zero_sum(counts, m - 1);
    }
}

/// The notes a band holds.
pub open spec fn band_load(counts: Seq<usize>, band: FrequencyRangeAssignment) -> int {
    count_sum(counts, band.highest as int + 1) - count_sum(counts, band.lowest as int)
}

/// The most notes a band can gather when it aims at `ideal`.
pub open spec fn load_bound(ideal: int, max_single: nat) -> int {
    if ideal >= 1 {
        ideal - 1 + max_single
    } else {
        max_single as int
    }
}

proof fn lemma_freq_ranges_loads(
    counts: Seq<usize>,
    n: int,
    ideal: int,
    clients: Seq<ClientInfo>,
    max_single: nat,
)
    requires
        0 <= n <= NOTE_NUMBERS,
        counts.len() == NOTE_NUMBERS,
        clients.len() > 0,
        forall|k: int| 0 <= k < NOTE_NUMBERS ==> #[trigger] counts[k] <= max_single,
    ensures
        ({
            let (rs, assigned) = freq_ranges(counts, n, ideal, clients);
            &&& forall|i: int|
                0 <= i < rs.len() ==> band_load(counts, #[trigger] rs[i]) <= load_bound(ideal, max_single)
                    && rs[i].lowest <= rs[i].highest < n
            &&& rs.len() > 0 ==> assigned == band_load(counts, rs.last()) && count_sum(counts, n)
                == count_sum(counts, rs.last().highest as int + 1)
        }),
    decreases n,
{
    if n > 0 {
        lemma_freq_ranges_loads(counts, n - 1, ideal, clients, max_single);
        let (rs, assigned) = freq_ranges(counts, n - 1, ideal, clients);
        let c = counts[n - 1];
        assert(count_sum(counts, n) == count_sum(counts, n - 1) + c);
        if c != 0 {
            if rs.len() == 0 || assigned >= ideal {
                let band = FrequencyRangeAssignment {
                    lowest: (n - 1) as u8,
                    highest: (n - 1) as u8,
                    client: clients[rs.len() as int % clients.len() as int].uid,
                };
                let grown = rs.push(band);
                assert(band_load(counts, band) == c);
                assert forall|i: int| 0 <= i < grown.len() implies band_load(counts, #[trigger] grown[i])
                    <= load_bound(ideal, max_single) && grown[i].lowest <= grown[i].highest < n by {
                    if i < rs.len() {
                        assert(grown[i] == rs[i]);
                    }
                }
            } else {
                let last = rs.last();
                let band = FrequencyRangeAssignment { highest: (n - 1) as u8, ..last };
                let grown = rs.update(rs.len() - 1, band);
                assert(band_load(counts, band) == assigned + c);
                assert forall|i: int| 0 <= i < grown.len() implies band_load(counts, #[trigger] grown[i])
                    <= load_bound(ideal, max_single) && grown[i].lowest <= grown[i].highest < n by {
                    if i < rs.len() - 1 {
                        assert(grown[i] == rs[i]);
                    }
                }
            }
        }
    }
}

/// With `clients` sharing `N` notes (`N` the sum of the counts), no band
/// holds more than `N` divided by the number of clients, rounded up, plus
/// the count of the busiest note number.
pub proof fn lemma_band_load_bound(
    counts: Seq<usize>,
    clients: Seq<ClientInfo>,
    spread: nat,
    max_single: nat,
)
    requires
        counts.len() == NOTE_NUMBERS,
        clients.len() > 0,
        spread >= 1,
        forall|k: int| 0 <= k < NOTE_NUMBERS ==> #[trigger] counts[k] <= max_single,
    ensures
        ({
            let bands = frequency_assignments(counts, clients, spread);
            let total = count_sum(counts, NOTE_NUMBERS as int);
            forall|i: int|
                0 <= i < bands.len() ==> band_load(counts, #[trigger] bands[i]) <= (total
                    + clients.len() - 1) / (clients.len() as int) + max_single
        }),
{
    let total = count_sum(counts, NOTE_NUMBERS as int);
    let k = clients.len() as int;
    let ideal = ideal_per_client(total, clients.len(), spread);
    lemma_freq_ranges_loads(counts, NOTE_NUMBERS as int, ideal, clients, max_single);
    vstd::arithmetic::div_mod::lemma_div_is_ordered_by_denominator((total / clients.len()) as int, 1, spread as int);
    vstd::arithmetic::div_mod::lemma_div_is_ordered(total as int, total + k - 1, k);
    assert(((total / clients.len()) as int) / 1 == (total / clients.len()) as int);
}

pub struct ByFrequencyPolicy {
    note_histogram: Vec<usize>,
    assignments: Vec<FrequencyRangeAssignment>,
    spread: usize,
}

impl ByFrequencyPolicy {
    #[verifier::type_invariant]
    spec fn inv(self) -> bool {
        &&& self.note_histogram@.len() == NOTE_NUMBERS
        &&& self.spread >= 1
        &&& count_sum(self.note_histogram@, NOTE_NUMBERS as int) <= usize::MAX
    }

    /// How many notes play each note number.
    pub closed spec fn histogram(&self) -> Seq<usize> {
        self.note_histogram@
    }

    /// The bands and their clients.
    pub closed spec fn assignments(&self) -> Seq<FrequencyRangeAssignment> {
        self.assignments@
    }

    /// The factor by which bands are narrowed.
    pub closed spec fn spread(&self) -> nat {
        self.spread as nat
    }

    /// A policy over the notes of `events`, with bands narrowed by `spread`.
    pub fn new(events: &[MusicalEvent], spread: usize) -> (r: ByFrequencyPolicy)
        requires
            spread >= 1,
        ensures
            r.histogram().len() == NOTE_NUMBERS,
            forall|n: int| 0 <= n < NOTE_NUMBERS ==> #[trigger] r.histogram()[n] == note_count(events@, n),
            r.spread() == spread,
            r.assignments() == Seq::<FrequencyRangeAssignment>::empty(),
    {
        let note_histogram = build_histogram(events);
        assert(events@.len() == events.len());
        ByFrequencyPolicy { note_histogram, assignments: Vec::new(), spread }
    }
}

impl ClientSelectionPolicy for ByFrequencyPolicy {
    fn on_clients_changed(&mut self, clients: &[ClientInfo])
        ensures
            final(self).histogram() == old(self).histogram(),
            final(self).spread() == old(self).spread(),
            final(self).assignments() == frequency_assignments(
                old(self).histogram(),
                clients@,
                old(self).spread(),
            ),
    {
        proof {
            use_type_invariant(&*self);
        }
        if clients.len() == 0 {
            self.assignments = Vec::new();
            return;
        }
        let ghost counts = self.note_histogram@;
        let mut total: usize = 0;
        let mut n: usize = 0;
        while n < NOTE_NUMBERS
            invariant
                n <= NOTE_NUMBERS,
                counts == self.note_histogram@,
                counts.len() == NOTE_NUMBERS,
                count_sum(counts, NOTE_NUMBERS as int) <= usize::MAX,
                total == count_sum(counts, n as int),
            decreases NOTE_NUMBERS - n,
        {
            proof {
                lemma_count_sum_monotone(counts, n + 1, NOTE_NUMBERS as int);
            }
            total = total + self.note_histogram[n];
            n += 1;
        }
        let ideal = (total / clients.len()) / self.spread;
        let mut new_assignments: Vec<FrequencyRangeAssignment> = Vec::new();
        let mut next_client_index: usize = 0;
        let mut assigned_count: usize = 0;
        let mut note: usize = 0;
        while note < NOTE_NUMBERS
            invariant
                note <= NOTE_NUMBERS,
                clients@.len() > 0,
                counts == self.note_histogram@,
                counts.len() == NOTE_NUMBERS,
                count_sum(counts, NOTE_NUMBERS as int) <= usize::MAX,
                (new_assignments@, assigned_count as int) == freq_ranges(counts, note as int, ideal as int, clients@),
                next_client_index == new_assignments@.len(),
                new_assignments@.len() <= note,
                assigned_count <= count_sum(counts, note as int),
            decreases NOTE_NUMBERS - note,
        {
            let count = self.note_histogram[note];
            proof {
                lemma_count_sum_monotone(counts, note + 1, NOTE_NUMBERS as int);
            }
            if count != 0 {
                if new_assignments.len() == 0 || assigned_count >= ideal {
                    let client_index = next_client_index % clients.len();
                    next_client_index += 1;
                    new_assignments.push(
                        FrequencyRangeAssignment {
                            lowest: note as u8,
                            highest: note as u8,
                            client: clients[client_index].uid,
                        },
                    );
                    assigned_count = count;
                } else {
                    let last = new_assignments.len() - 1;
                    let previous = new_assignments[last];
                    new_assignments.set(
                        last,
                        FrequencyRangeAssignment { highest: note as u8, ..previous },
                    );
                    assigned_count = assigned_count + count;
                }
            }
            note += 1;
        }
        self.assignments = new_assignments;
    }

    fn select_clients(&self, note: &Note) -> (r: Vec<ClientUID>)
        ensures
            r@ == covering_clients(self.assignments(), note.note),
    {
        let mut out: Vec<ClientUID> = Vec::new();
        let mut i: usize = 0;
        while i < self.assignments.len()
            invariant
                i <= self.assignments@.len(),
                out@ == covering_clients(self.assignments@.take(i as int), note.note),
            decreases self.assignments@.len() - i,
        {
            proof {
                assert(self.assignments@.take(i + 1).drop_last() =~= self.assignments@.take(i as int));
            }
            let a = self.assignments[i];
            if note.note >= a.lowest && note.note <= a.highest {
                out.push(a.client);
            }
            i += 1;
        }
        proof {
            assert(self.assignments@.take(i as int) =~= self.assignments@);
        }
        out
    }
}

} // verus!
