//! Source regions and values that carry one.

use vstd::prelude::*;

verus! {

/// Whether the position `(line1, col1)` is at or before `(line2, col2)`.
pub open spec fn pos_le(line1: int, col1: int, line2: int, col2: int) -> bool {
    line1 < line2 || (line1 == line2 && col1 <= col2)
}

/// A span of source text, from a start line and column to an end line and
/// column.
#[derive(Clone, Copy, Debug, PartialEq, Eq, Structural)]
pub struct Region {
    pub start_line: usize,
    pub end_line: usize,
    pub start_col: usize,
    pub end_col: usize,
}

impl Region {
    /// The end is not before the start.
    pub open spec fn ordered(self) -> bool {
        pos_le(
            self.start_line as int,
            self.start_col as int,
            self.end_line as int,
            self.end_col as int,
        )
    }

    /// `other` lies within this region: it starts no earlier and ends no
    /// later.
    pub open spec fn covers(self, other: Region) -> bool {
        &&& pos_le(
            self.start_line as int,
            self.start_col as int,
            other.start_line as int,
            other.start_col as int,
        )
        &&& pos_le(
            other.end_line as int,
            other.end_col as int,
            self.end_line as int,
            self.end_col as int,
        )
    }

    /// `next` begins at or behind the end of this region.
    pub open spec fn precedes(self, next: Region) -> bool {
        pos_le(
            self.end_line as int,
            self.end_col as int,
            next.start_line as int,
            next.start_col as int,
        )
    }

    /// The region from the start of `first` to the end of `last`.
    pub open spec fn span(first: Region, last: Region) -> Region {
        Region {
            start_line: first.start_line,
            end_line: last.end_line,
            start_col: first.start_col,
            end_col: last.end_col,
        }
    }

    /// The region from the start of `first` to the end of the last region of
    /// `rest`, or `first` itself where `rest` is empty.
    pub open spec fn span_all(first: Region, rest: Seq<Region>) -> Region {
        if rest.len() == 0 {
            first
        } else {
            Region::span(first, rest.last())
        }
    }

    pub fn new(start_line: usize, end_line: usize, start_col: usize, end_col: usize) -> (r: Region)
        ensures
            r == (Region { start_line, end_line, start_col, end_col }),
    {
        Region { start_line, end_line, start_col, end_col }
    }

    /// The empty region at the very beginning of a source.
    pub fn zero() -> (r: Region)
        ensures
            r == (Region { start_line: 0, end_line: 0, start_col: 0, end_col: 0 }),
    {
        Region { start_line: 0, end_line: 0, start_col: 0, end_col: 0 }
    }

    pub fn contains(&self, other: &Region) -> (r: bool)
        ensures
            r == self.covers(*other),
    {
        let starts_before: bool = self.start_line < other.start_line || (self.start_line
            == other.start_line && self.start_col <= other.start_col);
        let ends_behind: bool = other.end_line < self.end_line || (other.end_line == self.end_line
            && other.end_col <= self.end_col);
        starts_before && ends_behind
    }

    pub fn span_across(start: &Region, end: &Region) -> (r: Region)
        ensures
            r == Region::span(*start, *end),
    {
        Region {
            start_line: start.start_line,
            end_line: end.end_line,
            start_col: start.start_col,
            end_col: end.end_col,
        }
    }

    /// Merges `first` with the regions of `rest`, one after the other.
    pub fn across_all<T>(first: &Region, rest: &[Located<T>]) -> (r: Region)
        ensures
            r == Region::span_all(*first, regions_of(rest@)),
    {
        let mut result: Region = *first;
        let mut i: usize = 0;
        while i < rest.len()
            invariant
                i <= rest@.len(),
                result == Region::span_all(*first, regions_of(rest@.take(i as int))),
            decreases rest@.len() - i,
        {
            result = Region::span_across(&result, &rest[i].region);
            i = i + 1;
            assert(regions_of(rest@.take(i as int)).last() == rest@[i - 1].region);
        }
        assert(rest@.take(i as int) =~= rest@);
        result
    }
}

/// A value together with the region of source text that it was read from.
#[derive(Clone, Copy, Debug, PartialEq, Eq)]
pub struct Located<T> {
    pub region: Region,
    pub value: T,
}

impl<T> Located<T> {
    pub fn at(region: Region, value: T) -> (r: Located<T>)
        ensures
            r.region == region,
            r.value == value,
    {
        Located { region, value }
    }
}

/// The regions of a sequence of located values, in order.
pub open spec fn regions_of<T>(items: Seq<Located<T>>) -> Seq<Region> {
    Seq::new(items.len(), |i: int| items[i].region)
}

/// Each region of `regions` begins at or behind the end of the one before
/// it, and none ends before it starts.
pub open spec fn in_source_order(regions: Seq<Region>) -> bool {
    &&& forall|i: int| 0 <= i < regions.len() ==> (#[trigger] regions[i]).ordered()
    &&& forall|i: int, j: int|
        0 <= i < j < regions.len() ==> (#[trigger] regions[i]).precedes(#[trigger] regions[j])
}

/// The merge of regions that stand in source order covers each of them and
/// ends no earlier than it starts.
pub proof fn lemma_span_all_covers(first: Region, rest: Seq<Region>)
    requires
        in_source_order(seq![first] + rest),
    ensures
        Region::span_all(first, rest).ordered(),
        Region::span_all(first, rest).covers(first),
        forall|i: int| 0 <= i < rest.len() ==> Region::span_all(first, rest).covers(#[trigger] rest[i]),
{
    let all = seq![first] + rest;
    assert(all[0] == first);
    assert(all[0].ordered());
    if rest.len() > 0 {
        let n = rest.len() as int;
        assert(all[n] == rest.last());
        assert(all[n].ordered());
        assert(all[0].precedes(all[n]));
        assert forall|i: int| 0 <= i < rest.len() implies Region::span_all(first, rest).covers(
            #[trigger] rest[i],
        ) by {
            assert(all[i + 1] == rest[i]);
            assert(all[i + 1].ordered());
            assert(all[0].precedes(all[i + 1]));
            if i + 1 < n {
                assert(all[i + 1].precedes(all[n]));
            }
        }
    }
}

} // verus!
