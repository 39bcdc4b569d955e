//! Character-level helpers shared by the scanner and the backtrace renderer.

use vstd::prelude::*;

verus! {

/// Number of newline characters in `s`.
pub open spec fn spec_newlines(s: Seq<char>) -> nat
    decreases s.len(),
{
    if s.len() == 0 {
        0
    } else {
        spec_newlines(s.drop_last()) + if s.last() == '\n' {
            1nat
        } else {
            0nat
        }
    }
}

pub proof fn lemma_newlines_bound(s: Seq<char>)
    ensures
        spec_newlines(s) <= s.len(),
    decreases s.len(),
{
    if s.len() > 0 {
        lemma_newlines_bound(s.drop_last());
    }
}

/// Counts the newline characters of `s`.
pub fn count_newlines(s: &str) -> (r: usize)
    ensures
        r == spec_newlines(s@),
{
    let len: usize = s.unicode_len();
    let mut i: usize = 0;
    let mut r: usize = 0;
    proof {
        assert(s@.take(0) =~= Seq::<char>::empty());
    }
    while i < len
        invariant
            i <= len,
            len == s@.len(),
            r == spec_newlines(s@.take(i as int)),
            r <= i,
        decreases len - i,
    {
        let c = s.get_char(i);
        proof {
            assert(s@.take(i + 1).drop_last() =~= s@.take(i as int));
            assert(s@.take(i + 1).last() == s@[i as int]);
        }
        if c == '\n' {
            r = r + 1;
        }
        i = i + 1;
    }
    proof {
        assert(s@.take(len as int) =~= s@);
    }
    r
}

} // verus!
