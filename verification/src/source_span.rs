//! Byte ranges into a named source text. Such a span carries the file name and
//! the text itself, so that a diagnostic can be rendered from the span alone.

use vstd::prelude::*;

verus! {

/// A half-open range of byte offsets `start..end` into `source`, the text of `file`.
#[derive(Clone, Copy, Debug, PartialEq, Eq, Hash)]
pub struct Span<'src> {
    start: usize,
    end: usize,
    file: &'src str,
    source: &'src str,
}

impl<'src> Span<'src> {
    /// The first offset of the span.
    pub closed spec fn lo(self) -> int {
        self.start as int
    }

    /// The offset one past the last offset of the span.
    pub closed spec fn hi(self) -> int {
        self.end as int
    }

    /// The name of the file the span points into.
    pub closed spec fn file_name(self) -> Seq<char> {
        self.file@
    }

    /// The text the span points into.
    pub closed spec fn text(self) -> Seq<char> {
        self.source@
    }

    /// The span that covers both `self` and `other`, in the file of `self`.
    pub closed spec fn spec_merge(self, other: Span<'src>) -> Span<'src> {
        Span {
            start: if self.start <= other.start { self.start } else { other.start },
            end: if self.end >= other.end { self.end } else { other.end },
            file: self.file,
            source: self.source,
        }
    }

    /// Whether `self` overlaps `other`, in the sense used by `overlaps`.
    pub open spec fn spec_overlaps(self, other: Span<'src>) -> bool {
        ||| (self.lo() <= other.lo() && self.hi() > other.lo())
        ||| (self.lo() < other.hi() && self.hi() >= other.hi())
    }

    pub fn new(start: usize, end: usize, file: &'src str, source: &'src str) -> (s: Self)
        ensures
            s.lo() == start,
            s.hi() == end,
            s.file_name() == file@,
            s.text() == source@,
    {
        Self { start, end, file, source }
    }

    pub fn is_empty(&self) -> (b: bool)
        ensures
            b == (self.lo() >= self.hi()),
    {
        self.start >= self.end
    }

    pub fn merge(&self, other: Span<'src>) -> (s: Span<'src>)
        ensures
            s == self.spec_merge(other),
            s.lo() == (if self.lo() <= other.lo() { self.lo() } else { other.lo() }),
            s.hi() == (if self.hi() >= other.hi() { self.hi() } else { other.hi() }),
            s.file_name() == self.file_name(),
            s.text() == self.text(),
    {
        let start = if self.start <= other.start { self.start } else { other.start };
        let end = if self.end >= other.end { self.end } else { other.end };
        Span { start, end, file: self.file, source: self.source }
    }

    pub fn start(&self) -> (s: usize)
        ensures
            s == self.lo(),
    {
        self.start
    }

    pub fn end(&self) -> (e: usize)
        ensures
            e == self.hi(),
    {
        self.end
    }

    /// The number of bytes the span covers (zero for an empty span).
    pub fn len(&self) -> (n: usize)
        ensures
            n == (if self.lo() <= self.hi() { self.hi() - self.lo() } else { 0 }),
    {
        if self.start <= self.end {
            self.end - self.start
        } else {
            0
        }
    }

    pub fn overlaps(&self, other: Span<'src>) -> (b: bool)
        ensures
            b == self.spec_overlaps(other),
    {
        self.start <= other.start && self.end > other.start
            || self.start < other.end && self.end >= other.end
    }

    pub fn file(&self) -> (f: &'src str)
        ensures
            f@ == self.file_name(),
    {
        self.file
    }

    pub fn source(&self) -> (s: &'src str)
        ensures
            s@ == self.text(),
    {
        self.source
    }
}

/// Merging is commutative in its bounds.
pub proof fn law_merge_commutative<'src>(a: Span<'src>, b: Span<'src>)
    ensures
        a.spec_merge(b).lo() == b.spec_merge(a).lo(),
        a.spec_merge(b).hi() == b.spec_merge(a).hi(),
{
}

/// Merging is associative.
pub proof fn law_merge_associative<'src>(a: Span<'src>, b: Span<'src>, c: Span<'src>)
    ensures
        a.spec_merge(b).spec_merge(c) == a.spec_merge(b.spec_merge(c)),
{
}

/// Merging a span with itself gives the span back.
pub proof fn law_merge_idempotent<'src>(a: Span<'src>)
    ensures
        a.spec_merge(a) == a,
{
}

/// The merge of two spans starts no later and ends no earlier than either of them,
/// and stays in the file of the first.
pub proof fn law_merge_covers<'src>(a: Span<'src>, b: Span<'src>)
    ensures
        a.spec_merge(b).lo() <= a.lo(),
        a.spec_merge(b).lo() <= b.lo(),
        a.spec_merge(b).hi() >= a.hi(),
        a.spec_merge(b).hi() >= b.hi(),
        a.spec_merge(b).file_name() == a.file_name(),
        a.spec_merge(b).text() == a.text(),
{
}

/// When `a` overlaps a non-empty `b`, some offset lies in both spans.
pub proof fn law_overlaps_shares_offset<'src>(a: Span<'src>, b: Span<'src>) -> (p: int)
    requires
        a.spec_overlaps(b),
        b.lo() < b.hi(),
    ensures
        a.lo() <= p < a.hi(),
        b.lo() <= p < b.hi(),
{
    if a.lo() <= b.lo() && a.hi() > b.lo() {
        b.lo()
    } else {
        b.hi() - 1
    }
}

} // verus!
