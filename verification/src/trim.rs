//! The whitespace resolver: a pure function trimming one side of a text
//! fragment according to a trim mode, used by the scanner (to strip trim
//! markers) and by the code generator (to trim adjacent literal text).

use crate::Parser;
use crate::Whitespace;
use vstd::prelude::*;

verus! {

/// The whitespace predicate of `Multiple` trimming: space, tab, newline,
/// carriage return.
pub open spec fn is_ws(c: char) -> bool {
    c == ' ' || c == '\t' || c == '\n' || c == '\r'
}

/// `s` with all leading whitespace characters removed.
pub open spec fn trim_multi_leading(s: Seq<char>) -> Seq<char>
    decreases s.len(),
{
    if s.len() > 0 && is_ws(s[0]) {
        trim_multi_leading(s.drop_first())
    } else {
        s
    }
}

/// `s` with all trailing whitespace characters removed.
pub open spec fn trim_multi_trailing(s: Seq<char>) -> Seq<char>
    decreases s.len(),
{
    if s.len() > 0 && is_ws(s.last()) {
        trim_multi_trailing(s.drop_last())
    } else {
        s
    }
}

/// How many leading characters `Single` trimming removes: a `\n\r` pair as
/// one unit, else a single `\n`, else a lone `\r` not followed by `\n`.
pub open spec fn single_leading_count(s: Seq<char>) -> int {
    if s.len() >= 2 && s[0] == '\n' && s[1] == '\r' {
        2
    } else if s.len() >= 1 && s[0] == '\n' {
        1
    } else if s.len() >= 1 && s[0] == '\r' && (s.len() == 1 || s[1] != '\n') {
        1
    } else {
        0
    }
}

/// How many trailing characters `Single` trimming removes: a `\r\n` pair as
/// one unit, else a single `\n`.
pub open spec fn single_trailing_count(s: Seq<char>) -> int {
    if s.len() >= 2 && s[s.len() - 2] == '\r' && s[s.len() - 1] == '\n' {
        2
    } else if s.len() >= 1 && s[s.len() - 1] == '\n' {
        1
    } else {
        0
    }
}

/// The whitespace resolver's result: `s` trimmed on the leading (`left`) or
/// trailing side under the given mode. `None` leaves `s` unchanged,
/// `Multiple` strips all boundary whitespace, `Single` removes at most one
/// line terminator and never a plain space or tab.
pub open spec fn spec_trim(s: Seq<char>, whitespace: Option<Whitespace>, left: bool) -> Seq<char> {
    match whitespace {
        None => s,
        Some(Whitespace::Multiple) => if left {
            trim_multi_leading(s)
        } else {
            trim_multi_trailing(s)
        },
        Some(Whitespace::Single) => if left {
            s.skip(single_leading_count(s))
        } else {
            s.take(s.len() - single_trailing_count(s))
        },
    }
}

/// The dereferenced trim mode of an optional borrowed marker.
pub open spec fn ws_of(whitespace: Option<&Whitespace>) -> Option<Whitespace> {
    match whitespace {
        Some(w) => Some(*w),
        None => None,
    }
}

/// Decides the whitespace predicate.
fn ws_char(c: char) -> (r: bool)
    ensures
        r == is_ws(c),
{
    c == ' ' || c == '\t' || c == '\n' || c == '\r'
}

/// All leading whitespace gone means: the remainder is a suffix whose first
/// character, if any, is not whitespace.
proof fn lemma_trim_multi_leading_shape(s: Seq<char>)
    ensures
        trim_multi_leading(s).len() <= s.len(),
        trim_multi_leading(s) == s.skip(s.len() - trim_multi_leading(s).len()),
        trim_multi_leading(s).len() > 0 ==> !is_ws(trim_multi_leading(s)[0]),
    decreases s.len(),
{
    if s.len() > 0 && is_ws(s[0]) {
        lemma_trim_multi_leading_shape(s.drop_first());
        assert(s.drop_first().skip(s.drop_first().len() - trim_multi_leading(s).len()) =~= s.skip(
            s.len() - trim_multi_leading(s).len(),
        ));
    } else {
        assert(s.skip(0) =~= s);
    }
}

/// All trailing whitespace gone means: the remainder is a prefix whose last
/// character, if any, is not whitespace.
proof fn lemma_trim_multi_trailing_shape(s: Seq<char>)
    ensures
        trim_multi_trailing(s).len() <= s.len(),
        trim_multi_trailing(s) == s.take(trim_multi_trailing(s).len() as int),
        trim_multi_trailing(s).len() > 0 ==> !is_ws(trim_multi_trailing(s).last()),
    decreases s.len(),
{
    if s.len() > 0 && is_ws(s.last()) {
        lemma_trim_multi_trailing_shape(s.drop_last());
        assert(s.drop_last().take(trim_multi_trailing(s).len() as int) =~= s.take(
            trim_multi_trailing(s).len() as int,
        ));
    } else {
        assert(s.take(s.len() as int) =~= s);
    }
}

/// Trimming under mode `None` is the identity, and `Multiple` trimming is
/// idempotent: it removes strictly all boundary whitespace, so trimming again
/// removes nothing more.
pub proof fn lemma_trim_none_identity_multiple_idempotent(s: Seq<char>, left: bool)
    ensures
        spec_trim(s, None, left) == s,
        spec_trim(spec_trim(s, Some(Whitespace::Multiple), left), Some(Whitespace::Multiple), left)
            == spec_trim(s, Some(Whitespace::Multiple), left),
{
    if left {
        lemma_trim_multi_leading_shape(s);
    } else {
        lemma_trim_multi_trailing_shape(s);
    }
}

/// `Single` trimming removes at most one line-terminator sequence — never
/// more than two characters, and nothing unless the boundary character is a
/// line terminator. In particular plain spaces and tabs are never touched.
pub proof fn lemma_trim_single_bounded(s: Seq<char>, left: bool)
    ensures
        spec_trim(s, Some(Whitespace::Single), left).len() >= s.len() - 2,
        left && s.len() > 0 && s[0] != '\n' && s[0] != '\r' ==> spec_trim(
            s,
            Some(Whitespace::Single),
            left,
        ) == s,
        !left && s.len() > 0 && s.last() != '\n' ==> spec_trim(s, Some(Whitespace::Single), left)
            == s,
        s.len() == 0 ==> spec_trim(s, Some(Whitespace::Single), left) == s,
{
    if left {
        assert(s.skip(0) =~= s);
    } else {
        assert(s.take(s.len() as int) =~= s);
    }
}

impl<'a> Parser<'a> {
    /// Returns `i` trimmed on its leading (`left`) or trailing side under the
    /// requested trim mode.
    pub fn trim_whitespace<'b>(&self, i: &'b str, whitespace: Option<&Whitespace>, left: bool) -> (r:
        &'b str)
        ensures
            r@ == spec_trim(i@, ws_of(whitespace), left),
    {
        let len: usize = i.unicode_len();
        match whitespace {
            Some(Whitespace::Single) => {
                if left {
                    let k: usize = if len >= 2 && i.get_char(0) == '\n' && i.get_char(1) == '\r' {
                        2
                    } else if len >= 1 && i.get_char(0) == '\n' {
                        1
                    } else if len >= 1 && i.get_char(0) == '\r' && (len == 1 || i.get_char(1)
                        != '\n') {
                        1
                    } else {
                        0
                    };
                    let r = i.substring_char(k, len);
                    proof {
                        assert(r@ =~= i@.skip(single_leading_count(i@)));
                    }
                    r
                } else {
                    let k: usize = if len >= 2 && i.get_char(len - 2) == '\r' && i.get_char(len - 1)
                        == '\n' {
                        2
                    } else if len >= 1 && i.get_char(len - 1) == '\n' {
                        1
                    } else {
                        0
                    };
                    let r = i.substring_char(0, len - k);
                    proof {
                        assert(r@ =~= i@.take(i@.len() - single_trailing_count(i@)));
                    }
                    r
                }
            },
            Some(Whitespace::Multiple) => {
                if left {
                    let mut k: usize = 0;
                    proof {
                        assert(i@.skip(0) =~= i@);
                    }
                    while k < len && ws_char(i.get_char(k))
                        invariant
                            k <= len,
                            len == i@.len(),
                            trim_multi_leading(i@) == trim_multi_leading(i@.skip(k as int)),
                        decreases len - k,
                    {
                        proof {
                            assert(i@.skip(k as int).drop_first() =~= i@.skip(k + 1));
                        }
                        k = k + 1;
                    }
                    let r = i.substring_char(k, len);
                    proof {
                        assert(r@ =~= i@.skip(k as int));
                    }
                    r
                } else {
                    let mut k: usize = len;
                    proof {
                        assert(i@.take(len as int) =~= i@);
                    }
                    while k > 0 && ws_char(i.get_char(k - 1))
                        invariant
                            k <= len,
                            len == i@.len(),
                            trim_multi_trailing(i@) == trim_multi_trailing(i@.take(k as int)),
                        decreases k,
                    {
                        proof {
                            assert(i@.take(k as int).drop_last() =~= i@.take(k - 1));
                            assert(i@.take(k as int).last() == i@[k - 1]);
                        }
                        k = k - 1;
                    }
                    let r = i.substring_char(0, k);
                    proof {
                        assert(i@.take(k as int).len() == k);
                        assert(r@ =~= i@.take(k as int));
                    }
                    r
                }
            },
            None => i,
        }
    }
}

} // verus!
