//! Spans of time, counted in whole nanoseconds.
use vstd::prelude::*;

verus! {

/// Nanoseconds in one second.
pub const NANOS_PER_SEC: u128 = 1_000_000_000;

/// The longest span: `u64::MAX` seconds and 999 999 999 nanoseconds.
pub const MAX_NANOS: u128 = 18_446_744_073_709_551_615_999_999_999;

/// A span of time. Its view is its length in nanoseconds, at most `MAX_NANOS`.
#[derive(Clone, Copy, Debug, PartialEq, Eq, Structural)]
pub struct Duration {
    nanos: u128,
}

impl View for Duration {
    type V = nat;

    closed spec fn view(&self) -> nat {
        self.nanos as nat
    }
}

/// The smaller of two lengths.
pub open spec fn shorter(a: nat, b: nat) -> nat {
    if a <= b { a } else { b }
}

/// The larger of two lengths.
pub open spec fn longer(a: nat, b: nat) -> nat {
    if a <= b { b } else { a }
}

/// What is left of `a` once `b` is taken away; nothing where `b` is larger.
pub open spec fn remaining(a: nat, b: nat) -> nat {
    if a <= b { 0 } else { (a - b) as nat }
}

impl Duration {
    #[verifier::type_invariant]
    closed spec fn in_range(self) -> bool {
        self.nanos <= MAX_NANOS
    }

    /// The span of `secs` seconds and `nanos` nanoseconds.
    pub fn new(secs: u64, nanos: u32) -> (span: Duration)
        requires
            secs * NANOS_PER_SEC + nanos <= MAX_NANOS,
        ensures
            span@ == secs * NANOS_PER_SEC + nanos,
    {
        Duration { nanos: secs as u128 * NANOS_PER_SEC + nanos as u128 }
    }

    /// The span of `secs` seconds.
    pub fn from_secs(secs: u64) -> (span: Duration)
        ensures
            span@ == secs * NANOS_PER_SEC,
    {
        Duration { nanos: secs as u128 * NANOS_PER_SEC }
    }

    /// The span of `millis` milliseconds.
    pub fn from_millis(millis: u64) -> (span: Duration)
        ensures
            span@ == millis * 1_000_000,
    {
        Duration { nanos: millis as u128 * 1_000_000 }
    }

    /// The whole seconds of the span.
    pub fn as_secs(&self) -> (secs: u64)
        ensures
            secs == self@ / NANOS_PER_SEC as nat,
    {
        proof {
            use_type_invariant(self);
        }
        (self.nanos / NANOS_PER_SEC) as u64
    }

    /// The nanoseconds of the span beyond its whole seconds.
    pub fn subsec_nanos(&self) -> (nanos: u32)
        ensures
            nanos == self@ % NANOS_PER_SEC as nat,
    {
        (self.nanos % NANOS_PER_SEC) as u32
    }

    /// Whether the span has no length.
    pub fn is_zero(&self) -> (zero: bool)
        ensures
            zero == (self@ == 0),
    {
        self.nanos == 0
    }

    /// Whether the span is no shorter than `other`.
    pub fn at_least(&self, other: Duration) -> (holds: bool)
        ensures
            holds == (self@ >= other@),
    {
        self.nanos >= other.nanos
    }

    /// The shorter of the two spans.
    pub fn min(self, other: Duration) -> (span: Duration)
        ensures
            span@ == shorter(self@, other@),
            span@ <= self@ && span@ <= other@,
            span@ == self@ || span@ == other@,
    {
        if self.nanos <= other.nanos { self } else { other }
    }

    /// The longer of the two spans.
    pub fn max(self, other: Duration) -> (span: Duration)
        ensures
            span@ == longer(self@, other@),
            span@ >= self@ && span@ >= other@,
            span@ == self@ || span@ == other@,
    {
        if self.nanos <= other.nanos { other } else { self }
    }

    /// The `parts`-th part of the span, without the fraction of a nanosecond.
    pub fn divide(self, parts: u32) -> (span: Duration)
        requires
            parts > 0,
        ensures
            span@ == self@ / parts as nat,
    {
        proof {
            use_type_invariant(&self);
            vstd::arithmetic::div_mod::lemma_div_is_ordered_by_denominator(
                self.nanos as int,
                1,
                parts as int,
            );
        }
        Duration { nanos: self.nanos / parts as u128 }
    }

    /// The span taken `times` times, unless that is longer than any span.
    pub fn checked_mul(self, times: u32) -> (span: Option<Duration>)
        ensures
            span is Some <==> self@ * times <= MAX_NANOS,
            span matches Some(product) ==> product@ == self@ * times,
    {
        proof {
            use_type_invariant(&self);
        }
        assert(self.nanos * times <= MAX_NANOS * 0xffff_ffff) by (nonlinear_arith)
            requires
                self.nanos <= MAX_NANOS,
                times <= 0xffff_ffff,
        ;
        let nanos: u128 = self.nanos * times as u128;
        if nanos <= MAX_NANOS {
            Some(Duration { nanos })
        } else {
            None
        }
    }

    /// The shorter of the span taken `times` times and `limit`.
    pub fn mul_up_to(self, times: u128, limit: Duration) -> (span: Duration)
        ensures
            span@ == shorter(self@ * times as nat, limit@),
            span@ <= self@ * times && span@ <= limit@,
            span@ == self@ * times || span@ == limit@,
    {
        proof {
            use_type_invariant(&limit);
        }
        match self.nanos.checked_mul(times) {
            Some(nanos) if nanos <= limit.nanos => Duration { nanos },
            _ => limit,
        }
    }

    /// The span and `other` together, unless that is longer than any span.
    pub fn checked_add(self, other: Duration) -> (span: Option<Duration>)
        ensures
            span is Some <==> self@ + other@ <= MAX_NANOS,
            span matches Some(sum) ==> sum@ == self@ + other@,
    {
        proof {
            use_type_invariant(&self);
            use_type_invariant(&other);
        }
        let nanos: u128 = self.nanos + other.nanos;
        if nanos <= MAX_NANOS {
            Some(Duration { nanos })
        } else {
            None
        }
    }

    /// The span without `other`; empty where `other` is longer.
    pub fn saturating_sub(self, other: Duration) -> (span: Duration)
        ensures
            span@ == remaining(self@, other@),
            self@ >= other@ ==> span@ + other@ == self@,
            self@ < other@ ==> span@ == 0,
    {
        proof {
            use_type_invariant(&self);
        }
        if self.nanos <= other.nanos {
            Duration { nanos: 0 }
        } else {
            Duration { nanos: self.nanos - other.nanos }
        }
    }
}

/// The shorter of two lengths is one of them and no longer than either; the longer
/// is the other one.
pub proof fn law_shorter_and_longer(a: nat, b: nat)
    ensures
        shorter(a, b) <= a && shorter(a, b) <= b,
        shorter(a, b) == a || shorter(a, b) == b,
        longer(a, b) >= a && longer(a, b) >= b,
        shorter(a, b) + longer(a, b) == a + b,
{
}

/// What is left and what was taken away make up the whole, unless more was taken
/// away than there was; then nothing is left.
pub proof fn law_remaining(a: nat, b: nat)
    ensures
        a >= b ==> remaining(a, b) + b == a,
        a < b ==> remaining(a, b) == 0,
{
}

/// The whole seconds of a length and the nanoseconds beyond them make up the length.
pub proof fn law_seconds_and_nanoseconds(length: nat)
    ensures
        length == (length / (NANOS_PER_SEC as nat)) * 1_000_000_000 + length % (
        NANOS_PER_SEC as nat),
        length % (NANOS_PER_SEC as nat) <= 999_999_999,
{
}

} // verus!
