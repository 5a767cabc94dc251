//! Locating a parse error in the source bytes: the line number that
//! contains the error and the byte span of that line, for the caller
//! to print with a caret marking the offending range.

use vstd::prelude::*;

verus! {

/// The number of newline bytes among the first `i` bytes.
pub open spec fn nl_count(s: Seq<u8>, i: int) -> int
    decreases i,
{
    if i <= 0 {
        0
    } else {
        nl_count(s, i - 1) + if s[i - 1] == 10 {
            1int
        } else {
            0int
        }
    }
}

/// The start of the line containing position `i`: the index right
/// after the last newline strictly before `i`, or zero.
pub open spec fn line_start(s: Seq<u8>, i: int) -> int
    decreases i,
{
    if i <= 0 {
        0
    } else if s[i - 1] == 10 {
        i
    } else {
        line_start(s, i - 1)
    }
}

/// The first newline at or after `from`, or the input's length.
pub open spec fn line_end(s: Seq<u8>, from: int) -> int
    decreases s.len() - from,
{
    if from < 0 || from >= s.len() {
        s.len() as int
    } else if s[from] == 10 {
        from
    } else {
        line_end(s, from + 1)
    }
}

/// The position scanned up to: `location`, or the whole input when
/// `location` lies beyond it.
pub open spec fn clamped(s: Seq<u8>, location: int) -> int {
    if location <= s.len() {
        location
    } else {
        s.len() as int
    }
}

/// Locates the line that contains byte `location` of `input`: its
/// one-based line number, and the byte span `[start, end)` of the
/// line itself, `end` being the next newline or the end of the input.
#[verifier::loop_isolation(false)]
pub fn locate_error(input: &Vec<u8>, location: usize) -> (r: (usize, usize, usize))
    requires
        input@.len() < usize::MAX,
    ensures
        r.0 == 1 + nl_count(input@, clamped(input@, location as int)),
        r.1 == line_start(input@, clamped(input@, location as int)),
        r.2 == line_end(input@, r.1 as int),
        r.1 <= r.2 <= input@.len(),
{
    let n = input.len();
    let stop: usize = if location <= n {
        location
    } else {
        n
    };
    let mut line: usize = 1;
    let mut start: usize = 0;
    let mut i: usize = 0;
    while i < stop
        invariant
            i <= stop <= n,
            n == input@.len(),
            line == 1 + nl_count(input@, i as int),
            line <= 1 + i,
            start <= i,
            start == line_start(input@, i as int),
        decreases stop - i,
    {
        if input[i] == 10 {
            line = line + 1;
            start = i + 1;
        } else {
            proof {
                assert(line_start(input@, i + 1) == line_start(input@, i as int));
            }
        }
        i = i + 1;
    }
    let mut end: usize = start;
    while end < n
        invariant
            start <= end <= n,
            n == input@.len(),
            line_end(input@, start as int) == line_end(input@, end as int),
        decreases n - end,
    {
        if input[end] == 10 {
            return (line, start, end);
        }
        end = end + 1;
    }
    (line, start, end)
}

} // verus!
