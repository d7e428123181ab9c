//! Spans of time held as plain integers.

use vstd::prelude::*;

verus! {

/// Nanoseconds in one second.
pub const NANOS_PER_SEC: u32 = 1_000_000_000;

/// A span of time: whole seconds and a sub-second rest in nanoseconds.
///
/// Claim windows are spans, and so is a reading of a store's clock: the span
/// since the store was created.
#[derive(Debug, Clone, Copy, PartialEq, Eq)]
pub struct Span {
    secs: u64,
    nanos: u32,
}

impl View for Span {
    type V = nat;

    /// The span in nanoseconds.
    closed spec fn view(&self) -> nat {
        (self.secs * NANOS_PER_SEC + self.nanos) as nat
    }
}

impl Span {
    /// The rest is less than a whole second.
    #[verifier::type_invariant]
    spec fn rest_below_one_second(self) -> bool {
        self.nanos < NANOS_PER_SEC
    }

    /// A span of `secs` seconds and `nanos` nanoseconds.
    pub fn new(secs: u64, nanos: u32) -> (span: Self)
        requires
            nanos < NANOS_PER_SEC,
        ensures
            span@ == secs * NANOS_PER_SEC + nanos,
    {
        Span { secs, nanos }
    }

    /// A span of whole seconds.
    pub fn from_secs(secs: u64) -> (span: Self)
        ensures
            span@ == secs * NANOS_PER_SEC,
    {
        Span { secs, nanos: 0 }
    }

    /// A span of whole milliseconds.
    pub fn from_millis(millis: u64) -> (span: Self)
        ensures
            span@ == millis * 1_000_000,
    {
        let rest: u64 = millis % 1_000;
        Span { secs: millis / 1_000, nanos: rest as u32 * 1_000_000 }
    }

    /// The whole seconds of the span; the rest is dropped.
    pub fn as_secs(&self) -> (secs: u64)
        ensures
            secs == self@ / NANOS_PER_SEC as nat,
    {
        proof {
            use_type_invariant(self);
        }
        self.secs
    }

    /// The span in nanoseconds.
    pub fn as_nanos(&self) -> (nanos: u128)
        ensures
            nanos == self@,
            nanos < 0x1_0000_0000_0000_0000 * NANOS_PER_SEC,
    {
        proof {
            use_type_invariant(self);
            assert(self.secs * NANOS_PER_SEC <= u64::MAX * NANOS_PER_SEC) by (nonlinear_arith)
                requires
                    self.secs <= u64::MAX,
            ;
        }
        self.secs as u128 * NANOS_PER_SEC as u128 + self.nanos as u128
    }
}

/// How spans are made and measured, in nanoseconds: a second has 1,000,000,000
/// of them and a millisecond 1,000,000.
pub proof fn law_spans_are_made_whole(secs: u64, nanos: u32, made: Span, from: Span, of: Span)
    requires
        call_ensures(Span::new, (secs, nanos), made),
        call_ensures(Span::from_secs, (secs,), from),
        call_ensures(Span::from_millis, (secs,), of),
    ensures
        made@ == secs * 1_000_000_000 + nanos,
        from@ == secs * 1_000_000_000,
        of@ == secs * 1_000_000,
        NANOS_PER_SEC == 1_000_000_000,
{
}

/// What is measured of a span is all of it in nanoseconds, and all but a rest
/// of less than a second in seconds.
pub proof fn law_spans_are_measured_whole(span: &Span, secs: u64, nanos: u128)
    requires
        call_ensures(Span::as_secs, (span,), secs),
        call_ensures(Span::as_nanos, (span,), nanos),
    ensures
        nanos == span@,
        secs * 1_000_000_000 <= nanos < (secs + 1) * 1_000_000_000,
{
}

} // verus!
