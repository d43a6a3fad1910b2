use vstd::prelude::*;

verus! {

/// Nanoseconds in one second.
pub const ONE_SECOND_NS: u64 = 1_000_000_000;

/// The largest number of nanoseconds a `Duration` can hold.
pub open spec fn max_duration_nanos() -> nat {
    (u64::MAX as nat * ONE_SECOND_NS as nat + ONE_SECOND_NS as nat - 1) as nat
}

/// A span of time: whole seconds and the nanoseconds beyond them.
///
/// Values built by this library keep `nanos` below one second; a value with
/// more nanoseconds still means `secs` seconds plus `nanos` nanoseconds.
#[derive(Clone, Copy, Debug, PartialEq, Eq, Structural)]
pub struct Duration {
    pub secs: u64,
    pub nanos: u32,
}

impl View for Duration {
    type V = nat;

    /// The span in nanoseconds.
    open spec fn view(&self) -> nat {
        self.secs as nat * ONE_SECOND_NS as nat + self.nanos as nat
    }
}

impl Duration {
    /// Whether `nanos` stays below one second.
    pub open spec fn is_normalized(self) -> bool {
        self.nanos < ONE_SECOND_NS
    }

    /// The zero-length span.
    pub fn zero() -> (r: Duration)
        ensures
            r@ == 0,
            r.is_normalized(),
    {
        Duration { secs: 0, nanos: 0 }
    }

    /// Whole seconds of the span.
    pub fn as_secs(&self) -> (r: u64)
        requires
            self.is_normalized(),
        ensures
            r == self@ / ONE_SECOND_NS as nat,
    {
        proof {
            lemma_split(self.secs as nat, self.nanos as nat);
        }
        self.secs
    }

    /// Nanoseconds beyond the whole seconds.
    pub fn subsec_nanos(&self) -> (r: u32)
        requires
            self.is_normalized(),
        ensures
            r == self@ % ONE_SECOND_NS as nat,
    {
        proof {
            lemma_split(self.secs as nat, self.nanos as nat);
        }
        self.nanos
    }

    /// The span in nanoseconds, as a wide integer.
    pub fn total_nanos(&self) -> (r: u128)
        ensures
            r == self@,
    {
        assert(self.secs * 1_000_000_000 <= u64::MAX as nat * 1_000_000_000) by (nonlinear_arith)
            requires
                self.secs <= u64::MAX,
        ;
        self.secs as u128 * 1_000_000_000 + self.nanos as u128
    }

    /// The normalized span of `total` nanoseconds.
    pub fn from_total_nanos(total: u128) -> (r: Duration)
        requires
            total <= max_duration_nanos(),
        ensures
            r@ == total,
            r.is_normalized(),
    {
        let secs = total / 1_000_000_000;
        let nanos = total % 1_000_000_000;
        assert(secs <= u64::MAX) by (nonlinear_arith)
            requires
                secs == total / 1_000_000_000,
                total <= u64::MAX as nat * 1_000_000_000 + 999_999_999,
        ;
        Duration { secs: secs as u64, nanos: nanos as u32 }
    }

    /// The sum of two spans, or the largest span where the sum exceeds it.
    pub fn saturating_add(self, other: Duration) -> (r: Duration)
        ensures
            r@ == if self@ + other@ <= max_duration_nanos() {
                self@ + other@
            } else {
                max_duration_nanos()
            },
            r.is_normalized(),
    {
        let a = self.total_nanos();
        let b = other.total_nanos();
        let max: u128 = 18_446_744_073_709_551_615u128 * 1_000_000_000 + 999_999_999;
        if b <= max && a <= max - b {
            Duration::from_total_nanos(a + b)
        } else {
            Duration::from_total_nanos(max)
        }
    }

    /// The span from `earlier` to `self`, or zero where `earlier` is not before `self`.
    pub fn saturating_sub(self, earlier: Duration) -> (r: Duration)
        ensures
            r@ == if self@ <= earlier@ {
                0
            } else if self@ - earlier@ <= max_duration_nanos() {
                (self@ - earlier@) as nat
            } else {
                max_duration_nanos()
            },
            r.is_normalized(),
    {
        let a = self.total_nanos();
        let b = earlier.total_nanos();
        let max: u128 = 18_446_744_073_709_551_615u128 * 1_000_000_000 + 999_999_999;
        if a > b && a - b <= max {
            Duration::from_total_nanos(a - b)
        } else if a > b {
            Duration::from_total_nanos(max)
        } else {
            Duration::zero()
        }
    }

    /// The later of two spans.
    pub fn max(self, other: Duration) -> (r: Duration)
        ensures
            r == self || r == other,
            r@ >= self@ && r@ >= other@,
    {
        if self.total_nanos() >= other.total_nanos() {
            self
        } else {
            other
        }
    }
}

proof fn lemma_split(secs: nat, nanos: nat)
    requires
        nanos < ONE_SECOND_NS,
    ensures
        (secs * ONE_SECOND_NS as nat + nanos) / ONE_SECOND_NS as nat == secs,
        (secs * ONE_SECOND_NS as nat + nanos) % ONE_SECOND_NS as nat == nanos,
{
    vstd::arithmetic::div_mod::lemma_fundamental_div_mod_converse(
        (secs * ONE_SECOND_NS as nat + nanos) as int,
        ONE_SECOND_NS as int,
        secs as int,
        nanos as int,
    );
}

/// The span of `nanoseconds` nanoseconds, normalized.
pub fn nanoseconds_to_duration(nanoseconds: u64) -> (r: Duration)
    ensures
        r@ == nanoseconds,
        r.is_normalized(),
        r.secs == nanoseconds / ONE_SECOND_NS,
        r.nanos == nanoseconds % ONE_SECOND_NS,
{
    let mut rest: u64 = nanoseconds;
    let mut seconds: u64 = 0;
    while rest >= ONE_SECOND_NS
        invariant
            seconds as nat * ONE_SECOND_NS as nat + rest as nat == nanoseconds as nat,
        decreases rest,
    {
        rest -= ONE_SECOND_NS;
        assert(seconds < u64::MAX) by (nonlinear_arith)
            requires
                seconds as nat * 1_000_000_000 + rest as nat + 1_000_000_000 == nanoseconds as nat,
                nanoseconds <= u64::MAX,
        ;
        seconds += 1;
    }
    proof {
        lemma_split(seconds as nat, rest as nat);
    }
    Duration { secs: seconds, nanos: rest as u32 }
}

/// The span in nanoseconds; the span must fit in a `u64`.
pub fn duration_to_nanoseconds(duration: Duration) -> (r: u64)
    requires
        duration@ <= u64::MAX,
    ensures
        r == duration@,
{
    let total = duration.total_nanos();
    total as u64
}

} // verus!
