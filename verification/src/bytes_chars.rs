//! Copying character ranges.

use vstd::prelude::*;

verus! {

/// A fresh vector holding `u[start..end]`.
pub fn copy_chars(u: &[char], start: usize, end: usize) -> (out: Vec<char>)
    requires
        start <= end <= u@.len(),
    ensures
        out@ == u@.subrange(start as int, end as int),
{
    let mut out: Vec<char> = Vec::new();
    let mut i: usize = start;
    while i < end
        invariant
            start <= i <= end,
            end <= u@.len(),
            out@ == u@.subrange(start as int, i as int),
        decreases end - i,
    {
        out.push(u[i]);
        assert(u@.subrange(start as int, i + 1) =~= u@.subrange(start as int, i as int).push(u@[i as int]));
        i = i + 1;
    }
    out
}

} // verus!
