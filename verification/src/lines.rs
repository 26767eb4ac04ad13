//! Mapping source byte ranges to 1-based line ranges.
//!
//! A drawable item carries a source span whose byte range is mapped to
//! 1-based inclusive start/end lines via a line index over the source
//! text.  The end line is computed from the last byte actually covered,
//! clamped so it never precedes the start line.

use vstd::prelude::*;

verus! {

/// The newline byte that separates lines of the source text.
pub const NEWLINE: u8 = 0x0a;

/// A 1-based inclusive line range attached to an emitted block.
#[derive(Clone, Copy, PartialEq, Eq, Structural, Debug)]
pub struct SpanRange {
    pub line_start: usize,
    pub line_end: usize,
}

/// Number of newline bytes strictly before byte position `pos`.
pub open spec fn newlines_before(bytes: Seq<u8>, pos: int) -> nat
    decreases pos,
{
    if pos <= 0 {
        0
    } else {
        newlines_before(bytes, pos - 1) + (if bytes[pos - 1] == NEWLINE {
            1nat
        } else {
            0nat
        })
    }
}

/// Counting never yields more newlines than inspected bytes.
pub proof fn lemma_newlines_before_le(bytes: Seq<u8>, pos: int)
    requires
        0 <= pos,
    ensures
        newlines_before(bytes, pos) <= pos,
    decreases pos,
{
    if pos > 0 {
        lemma_newlines_before_le(bytes, pos - 1);
    }
}

/// Counting is monotone in the position.
pub proof fn lemma_newlines_before_monotone(bytes: Seq<u8>, p1: int, p2: int)
    requires
        0 <= p1 <= p2,
    ensures
        newlines_before(bytes, p1) <= newlines_before(bytes, p2),
    decreases p2 - p1,
{
    if p1 < p2 {
        lemma_newlines_before_monotone(bytes, p1, p2 - 1);
    }
}

/// The 0-based line of byte position `pos`, if `pos` is within the text.
pub open spec fn spec_byte_to_line(bytes: Seq<u8>, pos: int) -> Option<usize> {
    if 0 <= pos <= bytes.len() {
        Some(newlines_before(bytes, pos) as usize)
    } else {
        None
    }
}

/// 0-based line lookup over the source bytes; `None` past the end.
pub fn byte_to_line(bytes: &[u8], pos: usize) -> (r: Option<usize>)
    ensures
        r == spec_byte_to_line(bytes@, pos as int),
{
    if pos > bytes.len() {
        return None;
    }
    let mut count: usize = 0;
    for i in 0..pos
        invariant
            pos <= bytes@.len(),
            count == newlines_before(bytes@, i as int),
            count <= i,
    {
        if bytes[i] == NEWLINE {
            count = count + 1;
        }
    }
    Some(count)
}

/// The last byte actually covered by the half-open range `[start, end)`:
/// `end - 1`, clamped to be no earlier than `start`.
pub open spec fn spec_last_covered(start: int, end: int) -> int {
    let e = if end > 0 {
        end - 1
    } else {
        0
    };
    if e < start {
        start
    } else {
        e
    }
}

/// Line range of the byte range `[start, end)`, or `None` if a position
/// falls outside the text.
pub open spec fn spec_range_to_lines(bytes: Seq<u8>, start: int, end: int) -> Option<SpanRange> {
    match spec_byte_to_line(bytes, start) {
        Some(s0) => match spec_byte_to_line(bytes, spec_last_covered(start, end)) {
            Some(e0) => {
                let ls = s0 + 1;
                let le = e0 + 1;
                Some(
                    SpanRange {
                        line_start: ls as usize,
                        line_end: (if le < ls {
                            ls
                        } else {
                            le
                        }) as usize,
                    },
                )
            },
            None => None,
        },
        None => None,
    }
}

/// Map a byte range of the source text to its 1-based line range.
pub fn range_to_lines(bytes: &[u8], start: usize, end: usize) -> (r: Option<SpanRange>)
    requires
        bytes@.len() < usize::MAX,
    ensures
        r == spec_range_to_lines(bytes@, start as int, end as int),
{
    let start_line = match byte_to_line(bytes, start) {
        Some(l) => l,
        None => {
            return None;
        },
    };
    let e = if end > 0 {
        end - 1
    } else {
        0
    };
    let last = if e < start {
        start
    } else {
        e
    };
    let end_line = match byte_to_line(bytes, last) {
        Some(l) => l,
        None => {
            return None;
        },
    };
    proof {
        lemma_newlines_before_le(bytes@, start as int);
        lemma_newlines_before_le(bytes@, last as int);
    }
    let ls = start_line + 1;
    let le = end_line + 1;
    Some(
        SpanRange {
            line_start: ls,
            line_end: if le < ls {
                ls
            } else {
                le
            },
        },
    )
}

/// The number of newline bytes in `[a, b)` is the difference of the counts.
pub proof fn lemma_newlines_split(bytes: Seq<u8>, a: int, b: int)
    requires
        0 <= a <= b <= bytes.len(),
    ensures
        newlines_before(bytes, b) == newlines_before(bytes, a) + newlines_before(
            bytes.subrange(a, b),
            b - a,
        ),
    decreases b - a,
{
    if a < b {
        lemma_newlines_split(bytes, a, b - 1);
        assert(bytes.subrange(a, b - 1) =~= bytes.subrange(a, b).take(b - 1 - a));
        lemma_newlines_take(bytes.subrange(a, b), b - 1 - a);
        assert(bytes.subrange(a, b)[b - 1 - a] == bytes[b - 1]);
    }
}

/// Helper: counting up to `pos` sees only the first `pos` bytes.
proof fn lemma_newlines_take(bytes: Seq<u8>, pos: int)
    requires
        0 <= pos <= bytes.len(),
    ensures
        newlines_before(bytes.take(pos), pos) == newlines_before(bytes, pos),
    decreases pos,
{
    if pos > 0 {
        lemma_newlines_take(bytes.take(pos), pos - 1);
        lemma_newlines_take(bytes, pos - 1);
        assert(bytes.take(pos).take(pos - 1) =~= bytes.take(pos - 1));
    }
}

/// Span mapping law.  For a byte range within the text, the mapped lines
/// satisfy: the start line is one more than the newlines before `start`,
/// and the end line exceeds the start line by exactly the number of
/// newlines between `start` and the last covered byte.  In particular a
/// range entirely within line 1 maps to `line_start == line_end == 1`,
/// and a range whose covered bytes cross `n` newlines maps to
/// `line_end == line_start + n`.
pub proof fn lemma_span_mapping(bytes: Seq<u8>, start: int, end: int)
    requires
        0 <= start,
        spec_last_covered(start, end) <= bytes.len(),
        start <= bytes.len(),
        bytes.len() < usize::MAX,
    ensures
        spec_range_to_lines(bytes, start, end) is Some,
        ({
            let r = spec_range_to_lines(bytes, start, end)->Some_0;
            let last = spec_last_covered(start, end);
            &&& r.line_start == newlines_before(bytes, start) + 1
            &&& r.line_end == r.line_start + newlines_before(
                bytes.subrange(start, last),
                last - start,
            )
        }),
{
    let last = spec_last_covered(start, end);
    lemma_newlines_before_monotone(bytes, start, last);
    lemma_newlines_split(bytes, start, last);
    lemma_newlines_before_le(bytes, start);
    lemma_newlines_before_le(bytes, last);
}

} // verus!
