//! What the track and channel policies share: each key that notes play on
//! (a track, a channel) goes to one client, the keys dealt to the clients in
//! turn.
use crate::connection::ClientUID;
use crate::midi::{MusicalEvent, Note};
use crate::policies::lookup;
use vstd::laws_eq::obeys_concrete_eq;
use vstd::prelude::*;
use vstd::std_specs::cmp::PartialEqSpec;

verus! {

/// The keys that notes of `events` play on, in the order they first appear;
/// `key` gives the key of a note.
pub open spec fn distinct_keys<K>(events: Seq<MusicalEvent>, key: spec_fn(Note) -> K) -> Seq<K>
    decreases events.len(),
{
    if events.len() == 0 {
        Seq::empty()
    } else {
        let before = distinct_keys(events.drop_last(), key);
        match events.last() {
            MusicalEvent::PlayNote(n) => if before.contains(key(n)) {
                before
            } else {
                before.push(key(n))
            },
            _ => before,
        }
    }
}

/// Whether `e` is a note whose key is `x`.
pub open spec fn note_with_key<K>(e: MusicalEvent, key: spec_fn(Note) -> K, x: K) -> bool {
    e matches MusicalEvent::PlayNote(n) && key(n) == x
}

/// A key is among the distinct keys exactly when some note has it.
pub proof fn lemma_distinct_keys_contains<K>(
    events: Seq<MusicalEvent>,
    key: spec_fn(Note) -> K,
    x: K,
)
    ensures
        distinct_keys(events, key).contains(x) <==> exists|i: int|
            0 <= i < events.len() && #[trigger] note_with_key(events[i], key, x),
    decreases events.len(),
{
    if events.len() > 0 {
        let before = events.drop_last();
        let last = events.last();
        let prior = distinct_keys(before, key);
        lemma_distinct_keys_contains(before, key, x);
        assert forall|i: int| 0 <= i < before.len() implies before[i] == events[i] by {}
        assert(events[events.len() - 1] == last);
        if let MusicalEvent::PlayNote(n) = last {
            if key(n) == x {
                assert(note_with_key(events[events.len() - 1], key, x));
            }
            if !prior.contains(key(n)) {
                let grown = prior.push(key(n));
                assert(grown[prior.len() as int] == key(n));
                if prior.contains(x) {
                    let j = choose|j: int| 0 <= j < prior.len() && prior[j] == x;
                    assert(grown[j] == x);
                }
                if grown.contains(x) {
                    let j = choose|j: int| 0 <= j < grown.len() && grown[j] == x;
                    if j < prior.len() {
                        assert(prior[j] == x);
                    }
                }
            }
        }
        if exists|i: int| 0 <= i < events.len() && #[trigger] note_with_key(events[i], key, x) {
            let i = choose|i: int| 0 <= i < events.len() && #[trigger] note_with_key(events[i], key, x);
            if i < before.len() {
                assert(note_with_key(before[i], key, x));
            }
        }
        if exists|i: int| 0 <= i < before.len() && #[trigger] note_with_key(before[i], key, x) {
            let i = choose|i: int| 0 <= i < before.len() && #[trigger] note_with_key(before[i], key, x);
            assert(note_with_key(events[i], key, x));
        }
    }
}

/// Whether `v` holds `k`.
pub fn contains_key<K: PartialEq + Copy>(v: &Vec<K>, k: K) -> (r: bool)
    requires
        obeys_concrete_eq::<K>(),
    ensures
        r == v@.contains(k),
{
    proof {
        reveal(obeys_concrete_eq);
    }
    let mut i: usize = 0;
    while i < v.len()
        invariant
            i <= v@.len(),
            obeys_concrete_eq::<K>(),
            forall|x: K, y: K| x.eq_spec(&y) <==> x == y,
            K::obeys_eq_spec(),
            forall|j: int| 0 <= j < i ==> v@[j] != k,
        decreases v@.len() - i,
    {
        if v[i] == k {
            return true;
        }
        i += 1;
    }
    false
}

/// The keys that notes of `events` play on, each once, in the order they
/// first appear; `key_of` computes `key`.
pub(crate) fn collect_keys<K: PartialEq + Copy, F: Fn(&Note) -> K>(
    events: &[MusicalEvent],
    key_of: F,
    Ghost(key): Ghost<spec_fn(Note) -> K>,
) -> (r: Vec<K>)
    requires
        obeys_concrete_eq::<K>(),
        forall|n: Note| #[trigger] key_of.requires((&n,)),
        forall|n: Note, k: K| key_of.ensures((&n,), k) ==> k == key(n),
    ensures
        r@ == distinct_keys(events@, key),
        r@.no_duplicates(),
{
    let mut keys: Vec<K> = Vec::new();
    let mut i: usize = 0;
    while i < events.len()
        invariant
            i <= events@.len(),
            obeys_concrete_eq::<K>(),
            forall|n: Note| #[trigger] key_of.requires((&n,)),
            forall|n: Note, k: K| key_of.ensures((&n,), k) ==> k == key(n),
            keys@ == distinct_keys(events@.take(i as int), key),
            keys@.no_duplicates(),
        decreases events@.len() - i,
    {
        proof {
            assert(events@.take(i + 1).drop_last() =~= events@.take(i as int));
        }
        match &events[i] {
            MusicalEvent::PlayNote(n) => {
                let k = key_of(n);
                if !contains_key(&keys, k) {
                    keys.push(k);
                }
            },
            _ => {},
        }
        i += 1;
    }
    proof {
        assert(events@.take(i as int) =~= events@);
    }
    keys
}

/// The client of the first assignment of `key`, or none.
pub fn lookup_key<K: PartialEq + Copy>(assignments: &Vec<(K, ClientUID)>, key: K) -> (r: Vec<ClientUID>)
    requires
        obeys_concrete_eq::<K>(),
    ensures
        r@ == lookup(assignments@, key),
{
    proof {
        reveal(obeys_concrete_eq);
        assert(assignments@.subrange(0, assignments@.len() as int) =~= assignments@);
    }
    let mut i: usize = 0;
    while i < assignments.len()
        invariant
            i <= assignments@.len(),
            forall|x: K, y: K| x.eq_spec(&y) <==> x == y,
            K::obeys_eq_spec(),
            lookup(assignments@, key) == lookup(
                assignments@.subrange(i as int, assignments@.len() as int),
                key,
            ),
        decreases assignments@.len() - i,
    {
        let ghost rest = assignments@.subrange(i as int, assignments@.len() as int);
        proof {
            assert(rest.drop_first() =~= assignments@.subrange(i + 1, assignments@.len() as int));
        }
        if assignments[i].0 == key {
            let mut r: Vec<ClientUID> = Vec::new();
            r.push(assignments[i].1);
            return r;
        }
        i += 1;
    }
    Vec::new()
}

} // verus!
