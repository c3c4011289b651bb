//! A closed interval `[lower, upper]` over signed 32-bit integers, with
//! validated construction, membership and subset tests, and a textual
//! rendering.

use vstd::prelude::*;

use crate::decimal::{i32_to_string, int_to_dec};

verus! {

/// The fixed message of the `InvalidRange` failure: the lower bound exceeds
/// the upper bound, so the pair does not form a valid closed interval.
pub open spec fn invalid_range_msg() -> Seq<char> {
    "下限値が上限値より大きいため、有効な閉区間ではありません"@
}

/// An immutable closed interval: every integer from `lower` to `upper`,
/// both ends included. Equality is structural: two ranges are equal exactly
/// when both bounds match.
#[derive(Clone, Copy, PartialEq, Eq, Structural)]
pub struct ClosedRange {
    pub lower: i32,
    pub upper: i32,
}

/// What construction yields: a range holding exactly the given bounds when
/// `lower <= upper`, and nothing otherwise.
pub open spec fn construct_spec(lower: i32, upper: i32) -> Option<ClosedRange> {
    if lower <= upper {
        Some(ClosedRange { lower, upper })
    } else {
        None
    }
}

impl ClosedRange {
    /// The construction invariant: the bounds are ordered.
    pub open spec fn wf(self) -> bool {
        self.lower <= self.upper
    }

    pub open spec fn spec_contains(self, value: i32) -> bool {
        self.lower <= value && value <= self.upper
    }

    pub open spec fn spec_is_subset(self, other: ClosedRange) -> bool {
        other.lower <= self.lower && self.upper <= other.upper
    }

    /// The text `[<lower>, <upper>]` with a literal comma-space separator.
    pub open spec fn render_spec(self) -> Seq<char> {
        "["@ + int_to_dec(self.lower as int) + ", "@ + int_to_dec(self.upper as int) + "]"@
    }

    /// Validated construction: succeeds with exactly the given bounds when
    /// `lower <= upper`, and fails with the `InvalidRange` message otherwise.
    pub fn new(lower: i32, upper: i32) -> (r: Result<ClosedRange, String>)
        ensures
            match r {
                Ok(c) => construct_spec(lower, upper) == Some(c),
                Err(m) => construct_spec(lower, upper) is None && m@ == invalid_range_msg(),
            },
    {
        if lower > upper {
            return Err(
                String::from_str("下限値が上限値より大きいため、有効な閉区間ではありません"),
            );
        }
        Ok(ClosedRange { lower, upper })
    }

    /// Membership: true exactly when `lower <= value <= upper`.
    pub fn contains(&self, value: i32) -> (r: bool)
        ensures
            r == self.spec_contains(value),
    {
        value >= self.lower && value <= self.upper
    }

    /// Subset test with `self` as the candidate subset and `other` as the
    /// candidate superset: true exactly when
    /// `other.lower <= self.lower && self.upper <= other.upper`.
    pub fn is_subset(&self, other: &ClosedRange) -> (r: bool)
        ensures
            r == self.spec_is_subset(*other),
    {
        self.lower >= other.lower && self.upper <= other.upper
    }

    /// Renders the range as `[<lower>, <upper>]`.
    pub fn render(&self) -> (r: String)
        ensures
            r@ == self.render_spec(),
    {
        let mut s = String::from_str("[");
        let lo = i32_to_string(self.lower);
        s.append(lo.as_str());
        s.append(", ");
        let hi = i32_to_string(self.upper);
        s.append(hi.as_str());
        s.append("]");
        proof {
            assert(s@ =~= self.render_spec());
        }
        s
    }
}

/// Every pair `lower <= upper` constructs successfully, the result holds
/// exactly the given bounds, and it renders as `[<lower>, <upper>]`.
pub proof fn lemma_construct_and_render(lower: i32, upper: i32)
    requires
        lower <= upper,
    ensures
        construct_spec(lower, upper) matches Some(c) && c.lower == lower && c.upper == upper
            && c.render_spec() == "["@ + int_to_dec(lower as int) + ", "@ + int_to_dec(
            upper as int,
        ) + "]"@,
{
}

/// A valid range is a subset of itself.
pub proof fn lemma_is_subset_reflexive(r: ClosedRange)
    requires
        r.wf(),
    ensures
        r.spec_is_subset(r),
{
}

/// The subset test agrees with pointwise membership: `a` is a subset of `b`
/// exactly when every value `a` contains is also contained in `b`.
pub proof fn lemma_subset_means_containment(a: ClosedRange, b: ClosedRange)
    requires
        a.wf(),
        b.wf(),
    ensures
        a.spec_is_subset(b) <==> (forall|v: i32| a.spec_contains(v) ==> b.spec_contains(v)),
{
    if !a.spec_is_subset(b) {
        if b.lower > a.lower {
            assert(a.spec_contains(a.lower) && !b.spec_contains(a.lower));
        } else {
            assert(a.spec_contains(a.upper) && !b.spec_contains(a.upper));
        }
    }
}

/// Range equality is structural: two ranges are equal exactly when both
/// bounds match. Reflexivity, symmetry and transitivity follow.
pub proof fn lemma_equality_is_structural(a: ClosedRange, b: ClosedRange)
    ensures
        (a == b) <==> (a.lower == b.lower && a.upper == b.upper),
{
}

/// Each query is determined by its inputs alone: any two results that meet a
/// query's contract for the same inputs are identical, so repeated calls with
/// identical arguments yield identical answers.
pub proof fn lemma_queries_deterministic(
    r: ClosedRange,
    other: ClosedRange,
    v: i32,
    c1: bool,
    c2: bool,
    s1: bool,
    s2: bool,
    t1: Seq<char>,
    t2: Seq<char>,
)
    requires
        c1 == r.spec_contains(v),
        c2 == r.spec_contains(v),
        s1 == r.spec_is_subset(other),
        s2 == r.spec_is_subset(other),
        t1 == r.render_spec(),
        t2 == r.render_spec(),
    ensures
        c1 == c2,
        s1 == s2,
        t1 == t2,
{
}

} // verus!
