//! The code generator: turns the scanned token sequence into the source text
//! of an ordered instruction program for the host. Literal text is trimmed
//! against the neighbouring directives' trim requests, escaped, and appended
//! to the output accumulator; interpolations are enqueued for concurrent
//! evaluation and leave a placeholder marker in the accumulator; executions
//! run verbatim; a finalization step collects the results in enqueue order
//! and substitutes them for the placeholder occurrences left-to-right.

use crate::escape::spec_escape;
use crate::trim::spec_trim;
use crate::{CommandType, CommandV, Parser, Token, TokenV, Whitespace, tokens_view};
use vstd::prelude::*;

verus! {

/// The statement appending `t` to the accumulator `gv`.
pub open spec fn append_stmt(gv: Seq<char>, t: Seq<char>) -> Seq<char> {
    gv + "+='"@ + t + "';\n"@
}

/// The instructions emitted for one directive: an interpolation enqueues its
/// body for evaluation and appends the placeholder marker; an execution runs
/// its body verbatim, with no accumulator interaction.
pub open spec fn spec_gen_command(gv: Seq<char>, c: CommandV) -> Seq<char> {
    match c.kind {
        CommandType::Interpolate => "__prs.push("@ + c.content + ");\n"@ + append_stmt(
            gv,
            "rJ2KqXzxQg"@,
        ),
        CommandType::Execution => c.content + ";\n"@,
    }
}

/// The instruction flushing a held literal fragment before a directive: the
/// fragment's leading edge is trimmed by the previous directive's closing
/// trim request, its trailing edge by this directive's opening trim request,
/// and the result is escaped and appended.
pub open spec fn spec_gen_flush(
    gv: Seq<char>,
    prev: Option<Seq<char>>,
    trim_left: Option<Whitespace>,
    ows: Option<Whitespace>,
) -> Seq<char> {
    match prev {
        Some(t) => append_stmt(gv, spec_escape(spec_trim(spec_trim(t, trim_left, true), ows, false))),
        None => Seq::empty(),
    }
}

/// The generator's walk over the remaining tokens, holding the carried-over
/// trim request of the previous directive's closing tag and the most recent
/// unflushed literal fragment. After the walk, a trailing held fragment is
/// trimmed only on its leading edge and appended, and the finalization
/// instructions collect all enqueued results and substitute the placeholder
/// occurrences in order.
pub open spec fn spec_gen_loop(
    toks: Seq<TokenV>,
    gv: Seq<char>,
    trim_left: Option<Whitespace>,
    prev: Option<Seq<char>>,
) -> Seq<char>
    decreases toks.len(),
{
    if toks.len() == 0 {
        (match prev {
            Some(t) => append_stmt(gv, spec_escape(spec_trim(t, trim_left, true))),
            None => Seq::empty(),
        }) + "const __rst = await Promise.all(__prs);\n"@ + gv + " = "@ + gv + ".replace(/"@
            + "rJ2KqXzxQg"@ + "/g, () => __rst.shift());\n"@ + "return "@ + gv + ";\n"@
    } else {
        match toks[0] {
            TokenV::Text(t) => spec_gen_loop(toks.drop_first(), gv, trim_left, Some(t)),
            TokenV::Command(c) => spec_gen_flush(gv, prev, trim_left, c.opening_whitespace)
                + spec_gen_command(gv, c) + spec_gen_loop(
                toks.drop_first(),
                gv,
                c.closing_whitespace,
                None,
            ),
        }
    }
}

/// The whole generated program: the pending-results queue and accumulator
/// declarations, then the generator's walk.
pub open spec fn spec_generate_js(toks: Seq<TokenV>, gv: Seq<char>) -> Seq<char> {
    "let __prs = [];\nlet "@ + gv + " = '';\n"@ + spec_gen_loop(toks, gv, None, None)
}

/// The held fragment a borrowed literal stands for.
pub open spec fn prev_view(p: Option<&str>) -> Option<Seq<char>> {
    match p {
        Some(t) => Some(t@),
        None => None,
    }
}

impl<'a> Parser<'a> {
    /// The placeholder marker appended for each interpolation and later
    /// substituted by the finalization step: a fixed sentinel chosen to be
    /// extremely unlikely to collide with user content.
    pub fn replacement_marker() -> (r: &'static str)
        ensures
            r@ == "rJ2KqXzxQg"@,
    {
        "rJ2KqXzxQg"
    }

    /// Generates the instruction program for `tokens`, as source text over
    /// the configured accumulator identifier.
    #[verifier::rlimit(80)]
    pub fn generate_js(&self, tokens: Vec<Token<'a>>) -> (r: String)
        ensures
            r@ == spec_generate_js(tokens_view(tokens@), self.config@.global_var),
    {
        let gv: &str = self.config.global_var.as_str();
        let mut s = String::from_str("let __prs = [];\nlet ");
        s.append(gv);
        s.append(" = '';\n");
        let mut trim_left: Option<Whitespace> = None;
        let mut prev_text: Option<&'a str> = None;
        let mut idx: usize = 0;
        let ghost toksv = tokens_view(tokens@);
        proof {
            assert(toksv.skip(0) =~= toksv);
            assert(s@ =~= "let __prs = [];\nlet "@ + gv@ + " = '';\n"@);
        }
        while idx < tokens.len()
            invariant
                idx <= tokens.len(),
                gv@ == self.config@.global_var,
                toksv == tokens_view(tokens@),
                toksv.len() == tokens@.len(),
                spec_generate_js(toksv, gv@) == s@ + spec_gen_loop(
                    toksv.skip(idx as int),
                    gv@,
                    trim_left,
                    prev_view(prev_text),
                ),
            decreases tokens.len() - idx,
        {
            let ghost s0 = s@;
            let ghost tl0 = trim_left;
            let ghost prev0 = prev_view(prev_text);
            proof {
                assert(toksv.skip(idx as int)[0] == toksv[idx as int]);
                assert(toksv[idx as int] == tokens@[idx as int]@);
                assert(toksv.skip(idx as int).drop_first() =~= toksv.skip(idx + 1));
            }
            match &tokens[idx] {
                Token::Text(t) => {
                    prev_text = Some(*t);
                },
                Token::Command(c) => {
                    let ghost cv = c@;
                    if let Some(text) = prev_text {
                        let tlref: Option<&Whitespace> = match &trim_left {
                            Some(w) => Some(w),
                            None => None,
                        };
                        let owsref: Option<&Whitespace> = match &c.opening_whitespace {
                            Some(w) => Some(w),
                            None => None,
                        };
                        let t1 = self.trim_whitespace(text, tlref, true);
                        let t2 = self.trim_whitespace(t1, owsref, false);
                        let esc = self.escape_text(t2);
                        s.append(gv);
                        s.append("+='");
                        s.append(esc.as_str());
                        s.append("';\n");
                        proof {
                            assert(s@ =~= s0 + spec_gen_flush(
                                gv@,
                                prev0,
                                tl0,
                                cv.opening_whitespace,
                            ));
                        }
                    }
                    let ghost s1 = s@;
                    trim_left = c.closing_whitespace;
                    prev_text = None;
                    match c.kind {
                        CommandType::Interpolate => {
                            s.append("__prs.push(");
                            s.append(c.content);
                            s.append(");\n");
                            s.append(gv);
                            s.append("+='");
                            s.append("rJ2KqXzxQg");
                            s.append("';\n");
                        },
                        CommandType::Execution => {
                            s.append(c.content);
                            s.append(";\n");
                        },
                    }
                    proof {
                        assert(s@ =~= s1 + spec_gen_command(gv@, cv));
                        assert(s@ =~= s0 + (spec_gen_flush(gv@, prev0, tl0, cv.opening_whitespace)
                            + spec_gen_command(gv@, cv)));
                    }
                },
            }
            idx = idx + 1;
            proof {
                let rest = spec_gen_loop(toksv.skip(idx as int), gv@, trim_left, prev_view(
                    prev_text,
                ));
                assert(s0 + spec_gen_loop(toksv.skip(idx - 1), gv@, tl0, prev0) =~= s@ + rest);
            }
        }
        proof {
            assert(toksv.skip(tokens@.len() as int) =~= Seq::<TokenV>::empty());
        }
        if let Some(text) = prev_text {
            let tlref: Option<&Whitespace> = match &trim_left {
                Some(w) => Some(w),
                None => None,
            };
            let t1 = self.trim_whitespace(text, tlref, true);
            let esc = self.escape_text(t1);
            s.append(gv);
            s.append("+='");
            s.append(esc.as_str());
            s.append("';\n");
        }
        s.append("const __rst = await Promise.all(__prs);\n");
        s.append(gv);
        s.append(" = ");
        s.append(gv);
        s.append(".replace(/");
        s.append("rJ2KqXzxQg");
        s.append("/g, () => __rst.shift());\n");
        s.append("return ");
        s.append(gv);
        s.append(";\n");
        proof {
            assert(s@ =~= spec_generate_js(toksv, gv@));
        }
        s
    }
}

} // verus!
