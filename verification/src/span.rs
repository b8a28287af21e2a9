//! Byte ranges into a source file.

use crate::utils::{nat_text, usize_text};
use std::ops::Range;
use vstd::prelude::*;
use vstd::std_specs::convert::FromSpec;
use vstd::std_specs::convert::FromSpecImpl;
use vstd::string::*;

verus! {

/// A half-open range of byte offsets `start..end` into a source text.
#[derive(Clone, Copy, Debug, PartialEq, Eq, Hash, Structural)]
pub struct Span {
    start: usize,
    end: usize,
}

impl Span {
    /// The first offset of the span.
    pub closed spec fn lo(self) -> int {
        self.start as int
    }

    /// The offset one past the last offset of the span.
    pub closed spec fn hi(self) -> int {
        self.end as int
    }

    /// The span from `start` to `end`.
    pub closed spec fn spec_new(start: usize, end: usize) -> Span {
        Span { start, end }
    }

    /// The span that covers both `self` and `other`.
    pub closed spec fn spec_merge(self, other: Span) -> Span {
        Span {
            start: if self.start <= other.start { self.start } else { other.start },
            end: if self.end >= other.end { self.end } else { other.end },
        }
    }

    /// Whether `self` overlaps `other`, in the sense used by `overlaps`.
    pub open spec fn spec_overlaps(self, other: Span) -> bool {
        ||| (self.lo() <= other.lo() && self.hi() > other.lo())
        ||| (self.lo() < other.hi() && self.hi() >= other.hi())
    }

    pub fn new(start: usize, end: usize) -> (s: Self)
        ensures
            s == Span::spec_new(start, end),
            s.lo() == start,
            s.hi() == end,
    {
        Self { start, end }
    }

    pub fn is_empty(&self) -> (b: bool)
        ensures
            b == (self.lo() >= self.hi()),
    {
        self.start >= self.end
    }

    pub fn merge(&self, other: Span) -> (s: Span)
        ensures
            s == self.spec_merge(other),
            s.lo() == (if self.lo() <= other.lo() { self.lo() } else { other.lo() }),
            s.hi() == (if self.hi() >= other.hi() { self.hi() } else { other.hi() }),
    {
        let start = if self.start <= other.start { self.start } else { other.start };
        let end = if self.end >= other.end { self.end } else { other.end };
        Span::new(start, end)
    }

    pub fn end(&self) -> (e: usize)
        ensures
            e == self.hi(),
    {
        self.end
    }

    pub fn overlaps(&self, other: Span) -> (b: bool)
        ensures
            b == self.spec_overlaps(other),
    {
        self.start <= other.start && self.end > other.start
            || self.start < other.end && self.end >= other.end
    }
}

impl Span {
    /// The span as text: its start and its end, separated by a colon.
    pub fn to_string(&self) -> (t: String)
        ensures
            t@ == nat_text(self.lo() as nat) + ":"@ + nat_text(self.hi() as nat),
    {
        let mut t = usize_text(self.start);
        t.append(":");
        let end = usize_text(self.end);
        t.append(end.as_str());
        t
    }
}

impl From<Span> for Range<usize> {
    fn from(span: Span) -> (r: Range<usize>) {
        span.start..span.end
    }
}

impl FromSpecImpl<Span> for Range<usize> {
    open spec fn obeys_from_spec() -> bool {
        true
    }

    open spec fn from_spec(span: Span) -> Range<usize> {
        Range { start: span.lo() as usize, end: span.hi() as usize }
    }
}

impl From<Range<usize>> for Span {
    fn from(range: Range<usize>) -> (s: Span) {
        Span { start: range.start, end: range.end }
    }
}

impl FromSpecImpl<Range<usize>> for Span {
    open spec fn obeys_from_spec() -> bool {
        true
    }

    open spec fn from_spec(range: Range<usize>) -> Span {
        Span::spec_new(range.start, range.end)
    }
}

/// A span turned into a range and back is the same span; a range turned
/// into a span and back is the same range.
pub proof fn law_range_round_trip(s: Span, r: Range<usize>)
    ensures
        <Span as FromSpec<Range<usize>>>::from_spec(
            <Range<usize> as FromSpec<Span>>::from_spec(s),
        ) == s,
        <Range<usize> as FromSpec<Span>>::from_spec(
            <Span as FromSpec<Range<usize>>>::from_spec(r),
        ) == r,
{
}

/// Two spans are equal exactly when their bounds are equal.
pub proof fn lemma_span_ext(a: Span, b: Span)
    requires
        a.lo() == b.lo(),
        a.hi() == b.hi(),
    ensures
        a == b,
{
}

/// Merging is commutative.
pub proof fn law_merge_commutative(a: Span, b: Span)
    ensures
        a.spec_merge(b) == b.spec_merge(a),
{
}

/// Merging is associative.
pub proof fn law_merge_associative(a: Span, b: Span, c: Span)
    ensures
        a.spec_merge(b).spec_merge(c) == a.spec_merge(b.spec_merge(c)),
{
}

/// Merging a span with itself gives the span back.
pub proof fn law_merge_idempotent(a: Span)
    ensures
        a.spec_merge(a) == a,
{
}

/// The merge of two spans starts no later and ends no earlier than either of them.
pub proof fn law_merge_covers(a: Span, b: Span)
    ensures
        a.spec_merge(b).lo() <= a.lo(),
        a.spec_merge(b).lo() <= b.lo(),
        a.spec_merge(b).hi() >= a.hi(),
        a.spec_merge(b).hi() >= b.hi(),
{
}

/// When `a` overlaps a non-empty `b`, some offset lies in both spans.
pub proof fn law_overlaps_shares_offset(a: Span, b: Span) -> (p: int)
    requires
        a.spec_overlaps(b),
        b.lo() < b.hi(),
    ensures
        a.lo() <= p < a.hi(),
        b.lo() <= p < b.hi(),
{
    if a.lo() <= b.lo() && a.hi() > b.lo() {
        b.lo()
    } else {
        b.hi() - 1
    }
}

/// A non-empty span overlaps itself.
pub proof fn law_overlaps_reflexive(a: Span)
    requires
        a.lo() < a.hi(),
    ensures
        a.spec_overlaps(a),
{
}

} // verus!
