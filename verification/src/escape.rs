//! Escaping of literal text for the generated program's single-quoted string
//! literals, and the host-side unescaping rules it round-trips through.

use crate::Parser;
use vstd::prelude::*;

verus! {

/// Characters that must be escaped inside a generated string literal.
pub open spec fn needs_escape(c: char) -> bool {
    c == '\\' || c == '\n' || c == '\r' || c == '\''
}

/// The character written after the backslash for an escaped character.
pub open spec fn escape_code(c: char) -> char {
    if c == '\n' {
        'n'
    } else if c == '\r' {
        'r'
    } else {
        c
    }
}

/// `s` with backslash, newline, carriage return and single quote each turned
/// into their two-character escaped form.
pub open spec fn spec_escape(s: Seq<char>) -> Seq<char>
    decreases s.len(),
{
    if s.len() == 0 {
        Seq::empty()
    } else if needs_escape(s[0]) {
        seq!['\\', escape_code(s[0])] + spec_escape(s.drop_first())
    } else {
        seq![s[0]] + spec_escape(s.drop_first())
    }
}

/// The character a host string-literal parser reads for the code after a
/// backslash.
pub open spec fn unescape_code(c: char) -> char {
    if c == 'n' {
        '\n'
    } else if c == 'r' {
        '\r'
    } else {
        c
    }
}

/// The host's string-literal reading of `s`: a backslash and the character
/// after it denote one character; any other character denotes itself.
pub open spec fn spec_unescape(s: Seq<char>) -> Seq<char>
    decreases s.len(),
{
    if s.len() == 0 {
        Seq::empty()
    } else if s[0] == '\\' && s.len() >= 2 {
        seq![unescape_code(s[1])] + spec_unescape(s.skip(2))
    } else {
        seq![s[0]] + spec_unescape(s.drop_first())
    }
}

/// Escaping round-trips: the escaped form of any literal fragment, re-parsed
/// by the host's string-literal rules, yields the original fragment.
pub proof fn lemma_escape_roundtrip(s: Seq<char>)
    ensures
        spec_unescape(spec_escape(s)) == s,
    decreases s.len(),
{
    if s.len() == 0 {
        assert(spec_unescape(spec_escape(s)) =~= s);
    } else {
        lemma_escape_roundtrip(s.drop_first());
        let e = spec_escape(s);
        if needs_escape(s[0]) {
            assert(e.skip(2) =~= spec_escape(s.drop_first()));
            assert(unescape_code(escape_code(s[0])) == s[0]);
            assert(spec_unescape(e) =~= s);
        } else {
            assert(e.drop_first() =~= spec_escape(s.drop_first()));
            assert(spec_unescape(e) =~= s);
        }
    }
}

impl<'a> Parser<'a> {
    /// Escapes `i` for inclusion in a generated single-quoted string literal:
    /// backslash, newline, carriage return and single quote each become a
    /// backslash followed by their escape code.
    pub fn escape_text(&self, i: &str) -> (r: String)
        ensures
            r@ == spec_escape(i@),
    {
        let len: usize = i.unicode_len();
        let mut res = String::new();
        let mut k: usize = 0;
        proof {
            assert(i@.skip(0) =~= i@);
            assert(res@ + spec_escape(i@) =~= spec_escape(i@));
        }
        while k < len
            invariant
                k <= len,
                len == i@.len(),
                spec_escape(i@) == res@ + spec_escape(i@.skip(k as int)),
            decreases len - k,
        {
            let c = i.get_char(k);
            proof {
                assert(i@.skip(k as int)[0] == i@[k as int]);
                assert(i@.skip(k as int).drop_first() =~= i@.skip(k + 1));
                reveal_strlit("\\\\");
                reveal_strlit("\\n");
                reveal_strlit("\\r");
                reveal_strlit("\\'");
            }
            if c == '\\' {
                res.append("\\\\");
            } else if c == '\n' {
                res.append("\\n");
            } else if c == '\r' {
                res.append("\\r");
            } else if c == '\'' {
                res.append("\\'");
            } else {
                let piece = i.substring_char(k, k + 1);
                proof {
                    assert(piece@ =~= seq![i@[k as int]]);
                }
                res.append(piece);
            }
            proof {
                assert(spec_escape(i@) =~= res@ + spec_escape(i@.skip(k + 1)));
            }
            k = k + 1;
        }
        proof {
            assert(i@.skip(len as int) =~= Seq::<char>::empty());
            assert(res@ =~= spec_escape(i@));
        }
        res
    }
}

} // verus!
