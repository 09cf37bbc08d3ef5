//! How many times a mock is expected to match.
use vstd::prelude::*;
use crate::text::{decimal, push_decimal, push_str, string_of};

verus! {

/// The accepted range of match counts for a mock: an exact count or one of
/// the shapes of a range over `u64`.
#[derive(Clone, Copy, Debug, PartialEq, Eq)]
pub enum Times {
    /// Exactly `k`.
    Exact(u64),
    /// Any count: `0 <= x`.
    Unbounded,
    /// `a <= x < b`.
    Range(u64, u64),
    /// `a <= x`.
    RangeFrom(u64),
    /// `0 <= x < b`.
    RangeTo(u64),
    /// `0 <= x <= b`.
    RangeToInclusive(u64),
    /// `a <= x <= b`.
    RangeInclusive(u64, u64),
}

impl Times {
    /// Whether `n` lies in the range.
    pub open spec fn spec_contains(self, n: u64) -> bool {
        match self {
            Times::Exact(e) => n == e,
            Times::Unbounded => true,
            Times::Range(a, b) => a <= n && n < b,
            Times::RangeFrom(a) => a <= n,
            Times::RangeTo(b) => n < b,
            Times::RangeToInclusive(b) => n <= b,
            Times::RangeInclusive(a, b) => a <= n && n <= b,
        }
    }

    /// The human rendering used in diagnostics.
    pub open spec fn text(self) -> Seq<char> {
        match self {
            Times::Exact(e) => "== "@ + decimal(e as nat),
            Times::Unbounded => "0 <= x"@,
            Times::Range(a, b) => decimal(a as nat) + " <= x < "@ + decimal(b as nat),
            Times::RangeFrom(a) => decimal(a as nat) + " <= x"@,
            Times::RangeTo(b) => "0 <= x < "@ + decimal(b as nat),
            Times::RangeToInclusive(b) => "0 <= x <= "@ + decimal(b as nat),
            Times::RangeInclusive(a, b) => decimal(a as nat) + " <= x <= "@ + decimal(b as nat),
        }
    }

    /// Whether `n_calls` lies in the range.
    pub fn contains(&self, n_calls: u64) -> (r: bool)
        ensures
            r == self.spec_contains(n_calls),
    {
        match *self {
            Times::Exact(e) => n_calls == e,
            Times::Unbounded => true,
            Times::Range(a, b) => a <= n_calls && n_calls < b,
            Times::RangeFrom(a) => a <= n_calls,
            Times::RangeTo(b) => n_calls < b,
            Times::RangeToInclusive(b) => n_calls <= b,
            Times::RangeInclusive(a, b) => a <= n_calls && n_calls <= b,
        }
    }

    /// Appends the rendering of the range.
    pub fn push_text(&self, out: &mut Vec<char>)
        ensures
            final(out)@ == old(out)@ + self.text(),
    {
        let ghost start = out@;
        match *self {
            Times::Exact(e) => {
                push_str(out, "== ");
                push_decimal(out, e);
            },
            Times::Unbounded => {
                push_str(out, "0 <= x");
            },
            Times::Range(a, b) => {
                push_decimal(out, a);
                push_str(out, " <= x < ");
                push_decimal(out, b);
            },
            Times::RangeFrom(a) => {
                push_decimal(out, a);
                push_str(out, " <= x");
            },
            Times::RangeTo(b) => {
                push_str(out, "0 <= x < ");
                push_decimal(out, b);
            },
            Times::RangeToInclusive(b) => {
                push_str(out, "0 <= x <= ");
                push_decimal(out, b);
            },
            Times::RangeInclusive(a, b) => {
                push_decimal(out, a);
                push_str(out, " <= x <= ");
                push_decimal(out, b);
            },
        }
        proof {
            assert(out@ =~= start + self.text());
        }
    }

    /// The rendering of the range, as in `"1 <= x < 3"`.
    pub fn to_string(&self) -> (r: String)
        ensures
            r@ == self.text(),
    {
        let mut out: Vec<char> = Vec::new();
        self.push_text(&mut out);
        proof {
            assert(out@ =~= self.text());
        }
        string_of(&out)
    }
}

impl From<u64> for Times {
    fn from(x: u64) -> (r: Times)
        ensures
            r == Times::Exact(x),
    {
        Times::Exact(x)
    }
}

impl vstd::std_specs::convert::FromSpecImpl<u64> for Times {
    open spec fn obeys_from_spec() -> bool {
        true
    }

    open spec fn from_spec(x: u64) -> Times {
        Times::Exact(x)
    }
}

impl From<core::ops::Range<u64>> for Times {
    fn from(r: core::ops::Range<u64>) -> (t: Times)
        ensures
            t == Times::Range(r.start, r.end),
    {
        Times::Range(r.start, r.end)
    }
}

impl vstd::std_specs::convert::FromSpecImpl<core::ops::Range<u64>> for Times {
    open spec fn obeys_from_spec() -> bool {
        true
    }

    open spec fn from_spec(r: core::ops::Range<u64>) -> Times {
        Times::Range(r.start, r.end)
    }
}

#[verifier::external_type_specification]
#[verifier::reject_recursive_types(Idx)]
pub struct ExRangeFrom<Idx>(core::ops::RangeFrom<Idx>);

#[verifier::external_type_specification]
#[verifier::reject_recursive_types(Idx)]
pub struct ExRangeTo<Idx>(core::ops::RangeTo<Idx>);

#[verifier::external_type_specification]
#[verifier::reject_recursive_types(Idx)]
pub struct ExRangeToInclusive<Idx>(core::ops::RangeToInclusive<Idx>);

#[verifier::external_type_specification]
pub struct ExRangeFull(core::ops::RangeFull);

impl From<core::ops::RangeFull> for Times {
    fn from(r: core::ops::RangeFull) -> (t: Times)
        ensures
            t == Times::Unbounded,
    {
        Times::Unbounded
    }
}

impl vstd::std_specs::convert::FromSpecImpl<core::ops::RangeFull> for Times {
    open spec fn obeys_from_spec() -> bool {
        true
    }

    open spec fn from_spec(r: core::ops::RangeFull) -> Times {
        Times::Unbounded
    }
}

impl From<core::ops::RangeFrom<u64>> for Times {
    fn from(r: core::ops::RangeFrom<u64>) -> (t: Times)
        ensures
            t == Times::RangeFrom(r.start),
    {
        Times::RangeFrom(r.start)
    }
}

impl vstd::std_specs::convert::FromSpecImpl<core::ops::RangeFrom<u64>> for Times {
    open spec fn obeys_from_spec() -> bool {
        true
    }

    open spec fn from_spec(r: core::ops::RangeFrom<u64>) -> Times {
        Times::RangeFrom(r.start)
    }
}

impl From<core::ops::RangeTo<u64>> for Times {
    fn from(r: core::ops::RangeTo<u64>) -> (t: Times)
        ensures
            t == Times::RangeTo(r.end),
    {
        Times::RangeTo(r.end)
    }
}

impl vstd::std_specs::convert::FromSpecImpl<core::ops::RangeTo<u64>> for Times {
    open spec fn obeys_from_spec() -> bool {
        true
    }

    open spec fn from_spec(r: core::ops::RangeTo<u64>) -> Times {
        Times::RangeTo(r.end)
    }
}

impl From<core::ops::RangeToInclusive<u64>> for Times {
    fn from(r: core::ops::RangeToInclusive<u64>) -> (t: Times)
        ensures
            t == Times::RangeToInclusive(r.end),
    {
        Times::RangeToInclusive(r.end)
    }
}

impl vstd::std_specs::convert::FromSpecImpl<core::ops::RangeToInclusive<u64>> for Times {
    open spec fn obeys_from_spec() -> bool {
        true
    }

    open spec fn from_spec(r: core::ops::RangeToInclusive<u64>) -> Times {
        Times::RangeToInclusive(r.end)
    }
}

/// Relies on `RangeInclusive::into_inner`: the bounds the range was made with.
#[verifier::external_body]
fn inclusive_bounds(r: core::ops::RangeInclusive<u64>) -> (b: (u64, u64))
    ensures
        b == (r@.start, r@.end),
{
    r.into_inner()
}

impl From<core::ops::RangeInclusive<u64>> for Times {
    fn from(r: core::ops::RangeInclusive<u64>) -> (t: Times)
        ensures
            t == Times::RangeInclusive(r@.start, r@.end),
    {
        let (a, b) = inclusive_bounds(r);
        Times::RangeInclusive(a, b)
    }
}

impl vstd::std_specs::convert::FromSpecImpl<core::ops::RangeInclusive<u64>> for Times {
    open spec fn obeys_from_spec() -> bool {
        true
    }

    open spec fn from_spec(r: core::ops::RangeInclusive<u64>) -> Times {
        Times::RangeInclusive(r@.start, r@.end)
    }
}

} // verus!
