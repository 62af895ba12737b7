//! Source spans, values paired with spans, and span-insensitive comparison.

use vstd::prelude::*;

verus! {

/// A position in a source text: line and column.
#[derive(Clone, Copy, PartialEq, Eq, Structural, Hash, Debug)]
pub struct Position {
    /// The zero-based line.
    pub line: usize,
    /// The zero-based column.
    pub column: usize,
}

impl Position {
    /// A position from its line and column.
    pub fn new(line: usize, column: usize) -> (r: Position)
        ensures
            r.line == line,
            r.column == column,
    {
        Position { line, column }
    }
}

/// A region of source text, from a start to an end position.
#[derive(Clone, Copy, PartialEq, Eq, Structural, Hash, Debug)]
pub struct Span {
    /// Where the region starts.
    pub start: Position,
    /// Where the region ends.
    pub end: Position,
}

/// The dummy span: both ends at the origin.
pub open spec fn spec_zero_span() -> Span {
    Span {
        start: Position { line: 0, column: 0 },
        end: Position { line: 0, column: 0 },
    }
}

impl Span {
    /// A span from its two end positions.
    pub fn new(start: Position, end: Position) -> (r: Span)
        ensures
            r.start == start,
            r.end == end,
    {
        Span { start, end }
    }

    /// The dummy span.
    pub fn zero() -> (r: Span)
        ensures
            r == spec_zero_span(),
    {
        Span { start: Position::new(0, 0), end: Position::new(0, 0) }
    }
}

/// A value with the span it was read from.
#[derive(Clone, Copy, PartialEq, Eq, Hash, Debug)]
pub struct Spanned<T> {
    /// The value.
    pub v: T,
    /// The span of the value in the source text.
    pub span: Span,
}

/// Spans an element with the dummy zero span.
pub fn zspan<T>(v: T) -> (r: Spanned<T>)
    ensures
        r.v == v,
        r.span == spec_zero_span(),
{
    Spanned { v, span: Span::zero() }
}

/// Compares elements by only looking at values and ignoring spans.
pub trait SpanlessEq {
    /// What span-insensitive equality means for this type.
    spec fn spanless_spec(&self, other: &Self) -> bool;

    /// Whether the two values agree once spans are ignored.
    fn spanless_eq(&self, other: &Self) -> (r: bool)
        ensures
            r == self.spanless_spec(other),
    ;
}

impl SpanlessEq for String {
    open spec fn spanless_spec(&self, other: &Self) -> bool {
        self@ == other@
    }

    fn spanless_eq(&self, other: &Self) -> (r: bool)
        ensures
            r == self.spanless_spec(other),
    {
        crate::text::str_eq(self.as_str(), other.as_str())
    }
}

impl<T: SpanlessEq> SpanlessEq for Vec<Spanned<T>> {
    open spec fn spanless_spec(&self, other: &Self) -> bool {
        self@.len() == other@.len() && forall|i: int|
            0 <= i < self@.len() ==> (#[trigger] self@[i]).v.spanless_spec(&other@[i].v)
    }

    fn spanless_eq(&self, other: &Self) -> (r: bool)
        ensures
            r == self.spanless_spec(other),
    {
        let n = self.len();
        if n != other.len() {
            return false;
        }
        let mut i: usize = 0;
        while i < n
            invariant
                0 <= i <= n,
                n == self@.len(),
                n == other@.len(),
                forall|j: int|
                    0 <= j < i ==> (#[trigger] self@[j]).v.spanless_spec(&other@[j].v),
            decreases n - i,
        {
            if !self[i].v.spanless_eq(&other[i].v) {
                return false;
            }
            i = i + 1;
        }
        true
    }
}

} // verus!
