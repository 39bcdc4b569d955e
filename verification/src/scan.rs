//! The scanner: a single forward pass turning raw input and a tag
//! configuration into a sequence of tokens, with position tracking and a
//! rendered backtrace on malformed input.

use crate::error::RenderError;
use crate::text::{dec_string, find_from, lemma_find_some, spec_dec, spec_find};
use crate::utils::{count_newlines, lemma_newlines_bound, spec_newlines};
use crate::{Command, CommandType, CommandV, ConfigV, Parser, ParsingData, Token, TokenV,
    Whitespace, tokens_view};
use vstd::prelude::*;

verus! {

/// The model of a scan error: the failure kind and the rendered backtrace.
pub enum ErrV {
    MissingCommandType(Seq<char>),
    MissingClosingTag(Seq<char>),
}

/// Character offset at which line number `line` starts: just after the
/// `line`-th newline, or the input's end when there are fewer lines.
pub open spec fn line_start(s: Seq<char>, line: int) -> int
    decreases line,
{
    if line <= 0 {
        0
    } else {
        match spec_find(s, seq!['\n'], line_start(s, line - 1)) {
            Some(i) => i + 1,
            None => s.len() as int,
        }
    }
}

/// Character offset at which line number `line` ends (its newline, or the
/// input's end).
pub open spec fn line_end(s: Seq<char>, line: int) -> int {
    match spec_find(s, seq!['\n'], line_start(s, line)) {
        Some(i) => i,
        None => s.len() as int,
    }
}

/// The text of line number `line`, without its line terminator.
pub open spec fn line_text(s: Seq<char>, line: int) -> Seq<char> {
    let raw = s.subrange(line_start(s, line), line_end(s, line));
    if raw.len() > 0 && raw.last() == '\r' {
        raw.drop_last()
    } else {
        raw
    }
}

/// `n` spaces.
pub open spec fn spaces(n: int) -> Seq<char>
    decreases n,
{
    if n <= 0 {
        Seq::empty()
    } else {
        spaces(n - 1) + seq![' ']
    }
}

/// The rendered position diagnostic for a failure at absolute character
/// offset `ch` on line `line` of `s`: a one-based line number, the column
/// within that line, the full source line, and a caret under the failing
/// column.
pub open spec fn spec_backtrace(s: Seq<char>, line: int, ch: int) -> Seq<char> {
    let col = ch - line_start(s, line);
    let coln = if col >= 0 {
        col
    } else {
        0
    };
    let caret = if coln >= 1 {
        coln - 1
    } else {
        0
    };
    "line "@ + spec_dec(line + 1) + " col "@ + spec_dec(coln) + ":\n\n"@ + line_text(s, line)
        + "\n"@ + spaces(caret) + "^"@
}

/// The trim request recognised at position `p`, and the position after it:
/// the multi-trim marker is tried first, then the single-trim marker; any
/// other character (or the input's end) means no trim.
pub open spec fn spec_parse_ws(s: Seq<char>, cv: ConfigV, p: int) -> (Option<Whitespace>, int) {
    if 0 <= p < s.len() && s[p] == cv.multiple_whitespace {
        (Some(Whitespace::Multiple), p + 1)
    } else if 0 <= p < s.len() && s[p] == cv.single_whitespace {
        (Some(Whitespace::Single), p + 1)
    } else {
        (None, p)
    }
}

/// The command kind recognised at position `p` and the position after its
/// marker: the execution marker is tried first, then the interpolation
/// marker; with neither present, the kind whose marker is the `'\0'` default
/// sentinel applies without consuming a character. `None` means no marker and
/// no default: the command's kind is ambiguous.
pub open spec fn spec_parse_kind(s: Seq<char>, cv: ConfigV, p: int) -> Option<(CommandType, int)> {
    if !(0 <= p < s.len()) {
        None
    } else if s[p] == cv.execution {
        Some((CommandType::Execution, p + 1))
    } else if s[p] == cv.interpolate {
        Some((CommandType::Interpolate, p + 1))
    } else if cv.interpolate == '\0' {
        Some((CommandType::Interpolate, p))
    } else if cv.execution == '\0' {
        Some((CommandType::Execution, p))
    } else {
        None
    }
}

/// The scanner, from position `pos` onward, with `line` and `ch` the position
/// state accumulated so far. Yields the remaining tokens, or the first
/// positioned error. Text before each opening tag (if non-empty) is a `Text`
/// token; each directive is scanned as: opening tag, optional trim marker,
/// command-type marker (or default), body up to the closing tag, from whose
/// end an optional trim marker is stripped.
pub open spec fn spec_scan_from(
    s: Seq<char>,
    cv: ConfigV,
    pos: int,
    line: int,
    ch: int,
) -> Result<Seq<TokenV>, ErrV>
    decreases s.len() - pos,
    via spec_scan_from_dec
{
    if cv.opening_tag.len() <= 0 || cv.closing_tag.len() <= 0 || pos < 0 || pos > s.len() {
        Ok(Seq::empty())
    } else {
        match spec_find(s, cv.opening_tag, pos) {
            None => if pos < s.len() {
                Ok(seq![TokenV::Text(s.skip(pos))])
            } else {
                Ok(Seq::empty())
            },
            Some(t) => {
                let text = s.subrange(pos, t);
                let line1 = line + spec_newlines(text);
                let ch1 = ch + cv.opening_tag.len() + text.len();
                let p = t + cv.opening_tag.len();
                if p >= s.len() {
                    Err(ErrV::MissingClosingTag(spec_backtrace(s, line1, ch1)))
                } else {
                    let wsr = spec_parse_ws(s, cv, p);
                    let ows = wsr.0;
                    let p2 = wsr.1;
                    let ch2 = ch1 + (p2 - p);
                    match spec_parse_kind(s, cv, p2) {
                        None => Err(ErrV::MissingCommandType(spec_backtrace(s, line1, ch2))),
                        Some(kp) => {
                            let kind = kp.0;
                            let p3 = kp.1;
                            let ch3 = ch2 + (p3 - p2);
                            match spec_find(s, cv.closing_tag, p3) {
                                None => Err(
                                    ErrV::MissingClosingTag(spec_backtrace(s, line1, ch3)),
                                ),
                                Some(cend) => {
                                    let ch4 = ch3 + cv.closing_tag.len();
                                    let cwsr = if cend > p3 {
                                        spec_parse_ws(s, cv, cend - 1)
                                    } else {
                                        (None, cend)
                                    };
                                    let cws = cwsr.0;
                                    let ch5 = ch4 + if cws is Some {
                                        1int
                                    } else {
                                        0int
                                    };
                                    let content = if cws is Some {
                                        s.subrange(p3, cend - 1)
                                    } else {
                                        s.subrange(p3, cend)
                                    };
                                    let line2 = line1 + spec_newlines(content);
                                    let ch6 = ch5 + content.len();
                                    let cmd = TokenV::Command(
                                        CommandV {
                                            kind,
                                            opening_whitespace: ows,
                                            closing_whitespace: cws,
                                            content,
                                        },
                                    );
                                    match spec_scan_from(
                                        s,
                                        cv,
                                        cend + cv.closing_tag.len(),
                                        line2,
                                        ch6,
                                    ) {
                                        Ok(rest) => Ok(
                                            (if text.len() > 0 {
                                                seq![TokenV::Text(text)]
                                            } else {
                                                Seq::empty()
                                            }) + seq![cmd] + rest,
                                        ),
                                        Err(e) => Err(e),
                                    }
                                },
                            }
                        },
                    }
                }
            },
        }
    }
}

#[via_fn]
proof fn spec_scan_from_dec(s: Seq<char>, cv: ConfigV, pos: int, line: int, ch: int) {
    if !(cv.opening_tag.len() <= 0 || cv.closing_tag.len() <= 0 || pos < 0 || pos > s.len()) {
        if let Some(t) = spec_find(s, cv.opening_tag, pos) {
            lemma_find_some(s, cv.opening_tag, pos, t);
            let p = t + cv.opening_tag.len();
            if p < s.len() {
                let p2 = spec_parse_ws(s, cv, p).1;
                if let Some(kp) = spec_parse_kind(s, cv, p2) {
                    if let Some(cend) = spec_find(s, cv.closing_tag, kp.1) {
                        lemma_find_some(s, cv.closing_tag, kp.1, cend);
                    }
                }
            }
        }
    }
}

/// The whole scan of `s`.
pub open spec fn spec_scan(s: Seq<char>, cv: ConfigV) -> Result<Seq<TokenV>, ErrV> {
    spec_scan_from(s, cv, 0, 0, 0)
}

/// A scan error value carries the message its model prescribes.
pub open spec fn scan_err_matches(e: RenderError, ev: ErrV) -> bool {
    match ev {
        ErrV::MissingCommandType(mv) => e matches RenderError::MissingCommandType(m) && m@ == mv,
        ErrV::MissingClosingTag(mv) => e matches RenderError::MissingClosingTag(m) && m@ == mv,
    }
}

/// Prefixing the already-scanned tokens onto a scan of the remainder.
pub open spec fn prepend_tokens(acc: Seq<TokenV>, r: Result<Seq<TokenV>, ErrV>) -> Result<
    Seq<TokenV>,
    ErrV,
> {
    match r {
        Ok(ts) => Ok(acc + ts),
        Err(e) => Err(e),
    }
}

/// With no occurrence of the opening tag anywhere in a non-empty input, the
/// scan yields exactly one `Text` token holding the whole input. (An empty
/// input yields no token at all.)
pub proof fn lemma_scan_no_tag_single_text(s: Seq<char>, cv: ConfigV)
    requires
        cv.wf(),
        spec_find(s, cv.opening_tag, 0) is None,
        s.len() > 0,
    ensures
        spec_scan(s, cv) == Ok::<Seq<TokenV>, ErrV>(seq![TokenV::Text(s)]),
{
    assert(s.skip(0) =~= s);
}

/// Concatenation of the contents of the `Text` tokens of `ts`.
pub open spec fn text_concat(ts: Seq<TokenV>) -> Seq<char>
    decreases ts.len(),
{
    if ts.len() == 0 {
        Seq::empty()
    } else {
        (match ts[0] {
            TokenV::Text(t) => t,
            TokenV::Command(_) => Seq::empty(),
        }) + text_concat(ts.drop_first())
    }
}

/// The input with every directive — from its opening tag through its closing
/// tag — deleted: exactly the literal text surrounding the directives.
/// `None` when some directive pair is malformed.
pub open spec fn spec_strip_from(s: Seq<char>, cv: ConfigV, pos: int) -> Option<Seq<char>>
    decreases s.len() - pos,
    via spec_strip_from_dec
{
    if cv.opening_tag.len() <= 0 || cv.closing_tag.len() <= 0 || pos < 0 || pos > s.len() {
        Some(Seq::empty())
    } else {
        match spec_find(s, cv.opening_tag, pos) {
            None => if pos < s.len() {
                Some(s.skip(pos))
            } else {
                Some(Seq::empty())
            },
            Some(t) => {
                let p = t + cv.opening_tag.len();
                if p >= s.len() {
                    None
                } else {
                    let p2 = spec_parse_ws(s, cv, p).1;
                    match spec_parse_kind(s, cv, p2) {
                        None => None,
                        Some(kp) => match spec_find(s, cv.closing_tag, kp.1) {
                            None => None,
                            Some(cend) => match spec_strip_from(
                                s,
                                cv,
                                cend + cv.closing_tag.len(),
                            ) {
                                None => None,
                                Some(rest) => Some(s.subrange(pos, t) + rest),
                            },
                        },
                    }
                }
            },
        }
    }
}

#[via_fn]
proof fn spec_strip_from_dec(s: Seq<char>, cv: ConfigV, pos: int) {
    if !(cv.opening_tag.len() <= 0 || cv.closing_tag.len() <= 0 || pos < 0 || pos > s.len()) {
        if let Some(t) = spec_find(s, cv.opening_tag, pos) {
            lemma_find_some(s, cv.opening_tag, pos, t);
            let p = t + cv.opening_tag.len();
            if p < s.len() {
                let p2 = spec_parse_ws(s, cv, p).1;
                if let Some(kp) = spec_parse_kind(s, cv, p2) {
                    if let Some(cend) = spec_find(s, cv.closing_tag, kp.1) {
                        lemma_find_some(s, cv.closing_tag, kp.1, cend);
                    }
                }
            }
        }
    }
}

proof fn lemma_text_concat_app(a: Seq<TokenV>, b: Seq<TokenV>)
    ensures
        text_concat(a + b) == text_concat(a) + text_concat(b),
    decreases a.len(),
{
    if a.len() == 0 {
        assert(a + b =~= b);
        assert(text_concat(a) + text_concat(b) =~= text_concat(b));
    } else {
        lemma_text_concat_app(a.drop_first(), b);
        assert((a + b).drop_first() =~= a.drop_first() + b);
        assert((a + b)[0] == a[0]);
        assert(text_concat(a + b) =~= text_concat(a) + text_concat(b));
    }
}

proof fn lemma_scan_strip_from(
    s: Seq<char>,
    cv: ConfigV,
    pos: int,
    line: int,
    ch: int,
    toks: Seq<TokenV>,
)
    requires
        spec_scan_from(s, cv, pos, line, ch) == Ok::<Seq<TokenV>, ErrV>(toks),
    ensures
        spec_strip_from(s, cv, pos) == Some(text_concat(toks)),
    decreases s.len() - pos,
{
    if cv.opening_tag.len() <= 0 || cv.closing_tag.len() <= 0 || pos < 0 || pos > s.len() {
        assert(toks =~= Seq::<TokenV>::empty());
        assert(text_concat(toks) =~= Seq::<char>::empty());
    } else {
        match spec_find(s, cv.opening_tag, pos) {
            None => {
                if pos < s.len() {
                    assert(toks == seq![TokenV::Text(s.skip(pos))]);
                    assert(toks.drop_first() =~= Seq::<TokenV>::empty());
                    assert(text_concat(toks) == s.skip(pos) + text_concat(toks.drop_first()));
                    assert(text_concat(toks.drop_first()) == Seq::<char>::empty());
                    assert(text_concat(toks) =~= s.skip(pos));
                } else {
                    assert(text_concat(toks) =~= Seq::<char>::empty());
                }
            },
            Some(t) => {
                lemma_find_some(s, cv.opening_tag, pos, t);
                let text = s.subrange(pos, t);
                let line1 = line + spec_newlines(text);
                let p = t + cv.opening_tag.len();
                let p2 = spec_parse_ws(s, cv, p).1;
                let kp = spec_parse_kind(s, cv, p2)->Some_0;
                let p3 = kp.1;
                let cend = spec_find(s, cv.closing_tag, p3)->Some_0;
                lemma_find_some(s, cv.closing_tag, p3, cend);
                let cws = (if cend > p3 {
                    spec_parse_ws(s, cv, cend - 1)
                } else {
                    (None, cend)
                }).0;
                let content = if cws is Some {
                    s.subrange(p3, cend - 1)
                } else {
                    s.subrange(p3, cend)
                };
                let line2 = line1 + spec_newlines(content);
                let ch5 = ch + cv.opening_tag.len() + text.len() + (p2 - p) + (p3 - p2)
                    + cv.closing_tag.len() + if cws is Some {
                    1int
                } else {
                    0int
                };
                let ch6 = ch5 + content.len();
                let next = cend + cv.closing_tag.len();
                let rest = spec_scan_from(s, cv, next, line2, ch6);
                if let Ok(rtoks) = rest {
                    lemma_scan_strip_from(s, cv, next, line2, ch6, rtoks);
                    let ows = spec_parse_ws(s, cv, p).0;
                    let cmd = TokenV::Command(
                        CommandV {
                            kind: kp.0,
                            opening_whitespace: ows,
                            closing_whitespace: cws,
                            content,
                        },
                    );
                    let topt = if text.len() > 0 {
                        seq![TokenV::Text(text)]
                    } else {
                        Seq::<TokenV>::empty()
                    };
                    assert(toks == (topt + seq![cmd]) + rtoks);
                    lemma_text_concat_app(topt + seq![cmd], rtoks);
                    lemma_text_concat_app(topt, seq![cmd]);
                    assert(seq![cmd].drop_first() =~= Seq::<TokenV>::empty());
                    assert(text_concat(seq![cmd]) == Seq::<char>::empty() + text_concat(
                        seq![cmd].drop_first(),
                    ));
                    assert(text_concat(seq![cmd]) =~= Seq::<char>::empty());
                    if text.len() > 0 {
                        assert(topt.drop_first() =~= Seq::<TokenV>::empty());
                        assert(text_concat(topt) == text + text_concat(topt.drop_first()));
                        assert(text_concat(topt) =~= text);
                    } else {
                        assert(text_concat(topt) =~= Seq::<char>::empty());
                        assert(text =~= Seq::<char>::empty());
                    }
                    assert(text_concat(toks) =~= text + text_concat(rtoks));
                    assert(s.subrange(pos, t) + text_concat(rtoks) =~= text_concat(toks));
                }
            },
        }
    }
}

/// Removing each well-formed `opening_tag ... closing_tag` directive pair and
/// re-concatenating the `Text` token contents reproduces exactly the literal
/// text surrounding the directives (whitespace trimming is not applied at
/// scan time).
pub proof fn lemma_scan_text_reconstruction(s: Seq<char>, cv: ConfigV, toks: Seq<TokenV>)
    requires
        cv.wf(),
        spec_scan(s, cv) == Ok::<Seq<TokenV>, ErrV>(toks),
    ensures
        spec_strip_from(s, cv, 0) == Some(text_concat(toks)),
{
    lemma_scan_strip_from(s, cv, 0, 0, 0, toks);
}

proof fn lemma_prepend_empty(r: Result<Seq<TokenV>, ErrV>)
    ensures
        prepend_tokens(Seq::empty(), r) == r,
{
    match r {
        Ok(ts) => {
            assert(Seq::empty() + ts =~= ts);
        },
        Err(_) => {},
    }
}

proof fn lemma_prepend_assoc(a: Seq<TokenV>, b: Seq<TokenV>, r: Result<Seq<TokenV>, ErrV>)
    ensures
        prepend_tokens(a, prepend_tokens(b, r)) == prepend_tokens(a + b, r),
{
    match r {
        Ok(ts) => {
            assert(a + (b + ts) =~= (a + b) + ts);
        },
        Err(_) => {},
    }
}

proof fn lemma_tokens_view_push<'a>(ts: Seq<Token<'a>>, t: Token<'a>)
    ensures
        tokens_view(ts.push(t)) == tokens_view(ts).push(t@),
{
    assert(tokens_view(ts.push(t)) =~= tokens_view(ts).push(t@));
}

impl<'a> Parser<'a> {
    /// Renders the position diagnostic for the failure position `d`.
    pub(crate) fn generate_backtrace(&self, d: &ParsingData) -> (r: String)
        requires
            d.line < usize::MAX,
        ensures
            r@ == spec_backtrace(self.content@, d.line as int, d.ch as int),
    {
        let s = self.content;
        let len: usize = s.unicode_len();
        proof {
            reveal_strlit("\n");
            assert("\n"@ =~= seq!['\n']);
        }
        let mut ls: usize = 0;
        let mut k: usize = 0;
        while k < d.line
            invariant
                k <= d.line,
                ls <= len,
                len == s@.len(),
                "\n"@ == seq!['\n'],
                ls == line_start(s@, k as int),
            decreases d.line - k,
        {
            match find_from(s, "\n", ls) {
                Some(i) => {
                    proof {
                        lemma_find_some(s@, seq!['\n'], ls as int, i as int);
                    }
                    ls = i + 1;
                },
                None => {
                    ls = len;
                },
            }
            k = k + 1;
        }
        let le: usize = match find_from(s, "\n", ls) {
            Some(i) => {
                proof {
                    lemma_find_some(s@, seq!['\n'], ls as int, i as int);
                }
                i
            },
            None => len,
        };
        let mut le2: usize = le;
        if le > ls && s.get_char(le - 1) == '\r' {
            le2 = le - 1;
        }
        let text = s.substring_char(ls, le2);
        proof {
            let raw = s@.subrange(ls as int, le as int);
            if raw.len() > 0 && raw.last() == '\r' {
                assert(raw.drop_last() =~= s@.subrange(ls as int, le2 as int));
            }
            assert(text@ == line_text(s@, d.line as int));
        }
        let coln: usize = if d.ch >= ls {
            d.ch - ls
        } else {
            0
        };
        let caret: usize = if coln >= 1 {
            coln - 1
        } else {
            0
        };
        let mut sp = String::new();
        let mut j: usize = 0;
        proof {
            assert(sp@ =~= spaces(0));
        }
        while j < caret
            invariant
                j <= caret,
                sp@ == spaces(j as int),
            decreases caret - j,
        {
            proof {
                reveal_strlit(" ");
                assert(sp@ + " "@ =~= spaces(j + 1));
            }
            sp.append(" ");
            j = j + 1;
        }
        let mut out = String::from_str("line ");
        let num = dec_string(d.line + 1);
        out.append(num.as_str());
        out.append(" col ");
        let cnum = dec_string(coln);
        out.append(cnum.as_str());
        out.append(":\n\n");
        out.append(text);
        out.append("\n");
        out.append(sp.as_str());
        out.append("^");
        proof {
            assert(out@ =~= spec_backtrace(self.content@, d.line as int, d.ch as int));
        }
        out
    }

    /// Recognises an optional whitespace-trim marker at `pos`, returning the
    /// trim mode and the position after it, and advancing the consumed-
    /// character count for a consumed marker.
    pub(crate) fn parse_whitespace(&self, pos: usize, d: &mut ParsingData) -> (r: (
        Option<Whitespace>,
        usize,
    ))
        requires
            pos <= self.content@.len(),
            old(d).ch < usize::MAX,
        ensures
            (r.0, r.1 as int) == spec_parse_ws(self.content@, self.config@, pos as int),
            final (d).ch == old(d).ch + (r.1 - pos),
            final (d).line == old(d).line,
    {
        let s = self.content;
        let len: usize = s.unicode_len();
        if pos < len {
            let c = s.get_char(pos);
            if c == self.config.multiple_whitespace {
                d.ch = d.ch + 1;
                return (Some(Whitespace::Multiple), pos + 1);
            }
            if c == self.config.single_whitespace {
                d.ch = d.ch + 1;
                return (Some(Whitespace::Single), pos + 1);
            }
        }
        (None, pos)
    }

    /// Recognises the command-type marker at `pos`, or applies the default
    /// command type when one marker is the `'\0'` sentinel; fails with
    /// `MissingCommandType` otherwise.
    pub(crate) fn parse_command_tag(&self, pos: usize, d: &mut ParsingData) -> (r: Result<
        (CommandType, usize),
        RenderError,
    >)
        requires
            pos <= self.content@.len(),
            pos < self.content@.len() ==> old(d).ch < usize::MAX,
            old(d).line < usize::MAX,
        ensures
            match spec_parse_kind(self.content@, self.config@, pos as int) {
                Some(kp) => {
                    &&& r matches Ok(x) && (x.0, x.1 as int) == kp
                    &&& final (d).ch == old(d).ch + (kp.1 - pos)
                    &&& final (d).line == old(d).line
                },
                None => {
                    &&& r matches Err(e) && e matches RenderError::MissingCommandType(m) && m@
                        == spec_backtrace(self.content@, old(d).line as int, old(d).ch as int)
                    &&& *final (d) == *old(d)
                },
            },
    {
        let s = self.content;
        let len: usize = s.unicode_len();
        if pos >= len {
            return Err(RenderError::MissingCommandType(self.generate_backtrace(d)));
        }
        let c = s.get_char(pos);
        if c == self.config.execution {
            d.ch = d.ch + 1;
            Ok((CommandType::Execution, pos + 1))
        } else if c == self.config.interpolate {
            d.ch = d.ch + 1;
            Ok((CommandType::Interpolate, pos + 1))
        } else if self.config.interpolate == '\0' {
            Ok((CommandType::Interpolate, pos))
        } else if self.config.execution == '\0' {
            Ok((CommandType::Execution, pos))
        } else {
            Err(RenderError::MissingCommandType(self.generate_backtrace(d)))
        }
    }

    /// Locates the closing tag from `pos` on, returning the body's end and
    /// the position just after the closing tag, whose length is added to the
    /// consumed-character count; fails with `MissingClosingTag` when no
    /// closing tag follows.
    pub(crate) fn parse_closing_tag(&self, pos: usize, d: &mut ParsingData) -> (r: Result<
        (usize, usize),
        RenderError,
    >)
        requires
            pos <= self.content@.len(),
            self.config@.closing_tag.len() > 0,
            spec_find(self.content@, self.config@.closing_tag, pos as int) is Some ==> old(d).ch
                + self.config@.closing_tag.len() <= usize::MAX,
            old(d).line < usize::MAX,
        ensures
            match spec_find(self.content@, self.config@.closing_tag, pos as int) {
                Some(cend) => {
                    &&& r matches Ok(x) && (x.0 as int, x.1 as int) == (cend, cend
                        + self.config@.closing_tag.len())
                    &&& final (d).ch == old(d).ch + self.config@.closing_tag.len()
                    &&& final (d).line == old(d).line
                },
                None => {
                    &&& r matches Err(e) && e matches RenderError::MissingClosingTag(m) && m@
                        == spec_backtrace(self.content@, old(d).line as int, old(d).ch as int)
                    &&& *final (d) == *old(d)
                },
            },
    {
        let s = self.content;
        let len: usize = s.unicode_len();
        let clt: &str = self.config.closing_tag.as_str();
        let clen: usize = clt.unicode_len();
        match find_from(s, clt, pos) {
            Some(cend) => {
                proof {
                    lemma_find_some(s@, clt@, pos as int, cend as int);
                    assert(cend + clen <= len);
                }
                d.ch = d.ch + clen;
                Ok((cend, cend + clen))
            },
            None => Err(RenderError::MissingClosingTag(self.generate_backtrace(d))),
        }
    }

    /// Scans the whole input into its ordered token sequence, or fails fast
    /// with the first positioned error; no partial token sequence is ever
    /// returned. The result is exactly the scan the model prescribes.
    pub fn parse_tokens(&self) -> (r: Result<Vec<Token<'a>>, RenderError>)
        requires
            self.config@.wf(),
        ensures
            match r {
                Ok(tokens) => spec_scan(self.content@, self.config@) == Ok::<
                    Seq<TokenV>,
                    ErrV,
                >(tokens_view(tokens@)),
                Err(e) => spec_scan(self.content@, self.config@) matches Err(ev)
                    && scan_err_matches(e, ev),
            },
    {
        let s = self.content;
        let len: usize = s.unicode_len();
        let opt: &str = self.config.opening_tag.as_str();
        let olen: usize = opt.unicode_len();
        let ghost cv = self.config@;
        let mut tokens: Vec<Token<'a>> = Vec::new();
        let mut pos: usize = 0;
        let mut d = ParsingData { line: 0, ch: 0 };
        proof {
            lemma_prepend_empty(spec_scan_from(s@, cv, 0, 0, 0));
            assert(tokens_view(tokens@) =~= Seq::<TokenV>::empty());
            assert(prepend_tokens(tokens_view(tokens@), spec_scan_from(s@, cv, 0, 0, 0))
                == spec_scan(s@, cv)) by {
                assert(tokens_view(tokens@) == Seq::<TokenV>::empty());
            }
        }
        loop
            invariant
                cv.wf(),
                cv == self.config@,
                s@ == self.content@,
                len == s@.len(),
                olen == cv.opening_tag.len(),
                opt@ == cv.opening_tag,
                pos <= len,
                d.ch == pos,
                d.line <= d.ch,
                prepend_tokens(
                    tokens_view(tokens@),
                    spec_scan_from(s@, cv, pos as int, d.line as int, d.ch as int),
                ) == spec_scan(s@, cv),
            decreases len - pos,
        {
            let ghost pos0 = pos as int;
            let ghost line0 = d.line as int;
            let ghost ch0 = d.ch as int;
            let ghost tv0 = tokens_view(tokens@);
            match find_from(s, opt, pos) {
                None => {
                    if pos < len {
                        let txt = s.substring_char(pos, len);
                        let ghost tsnap = tokens@;
                        tokens.push(Token::Text(txt));
                        proof {
                            lemma_tokens_view_push(tsnap, Token::Text(txt));
                        }
                    }
                    proof {
                        if pos0 < len {
                            assert(spec_scan_from(s@, cv, pos0, line0, ch0) == Ok::<
                                Seq<TokenV>,
                                ErrV,
                            >(seq![TokenV::Text(s@.skip(pos0))]));
                            assert(tokens_view(tokens@) =~= tv0 + seq![TokenV::Text(s@.skip(pos0))]);
                        } else {
                            assert(spec_scan_from(s@, cv, pos0, line0, ch0) == Ok::<
                                Seq<TokenV>,
                                ErrV,
                            >(Seq::<TokenV>::empty()));
                            assert(tokens_view(tokens@) =~= tv0 + Seq::<TokenV>::empty());
                        }
                    }
                    return Ok(tokens);
                },
                Some(t) => {
                    proof {
                        lemma_find_some(s@, cv.opening_tag, pos0, t as int);
                    }
                    let txt = s.substring_char(pos, t);
                    let nls = count_newlines(txt);
                    proof {
                        lemma_newlines_bound(txt@);
                    }
                    if t > pos {
                        let ghost tsnap = tokens@;
                        tokens.push(Token::Text(txt));
                        proof {
                            lemma_tokens_view_push(tsnap, Token::Text(txt));
                        }
                    }
                    d.ch = d.ch + olen + (t - pos);
                    d.line = d.line + nls;
                    let ghost text = s@.subrange(pos0, t as int);
                    let ghost line1 = line0 + spec_newlines(text);
                    let ghost ch1 = ch0 + cv.opening_tag.len() + text.len();
                    let ghost mid = (if t > pos0 {
                        seq![TokenV::Text(text)]
                    } else {
                        Seq::<TokenV>::empty()
                    });
                    let p = t + olen;
                    if p >= len {
                        let e = self.generate_backtrace(&d);
                        proof {
                            assert(spec_scan_from(s@, cv, pos0, line0, ch0) == Err::<
                                Seq<TokenV>,
                                ErrV,
                            >(ErrV::MissingClosingTag(spec_backtrace(s@, line1, ch1))));
                        }
                        return Err(RenderError::MissingClosingTag(e));
                    }
                    let wsr = self.parse_whitespace(p, &mut d);
                    let ows = wsr.0;
                    let p2 = wsr.1;
                    let ghost ch2 = ch1 + (p2 - p);
                    let kr = self.parse_command_tag(p2, &mut d);
                    let (kind, p3) = match kr {
                        Ok(x) => x,
                        Err(e) => {
                            proof {
                                assert(spec_scan_from(s@, cv, pos0, line0, ch0) == Err::<
                                    Seq<TokenV>,
                                    ErrV,
                                >(ErrV::MissingCommandType(spec_backtrace(s@, line1, ch2))));
                            }
                            return Err(e);
                        },
                    };
                    let ghost ch3 = ch2 + (p3 - p2);
                    proof {
                        if let Some(ce) = spec_find(s@, cv.closing_tag, p3 as int) {
                            lemma_find_some(s@, cv.closing_tag, p3 as int, ce);
                        }
                    }
                    let cr = self.parse_closing_tag(p3, &mut d);
                    let (cend, next) = match cr {
                        Ok(x) => x,
                        Err(e) => {
                            proof {
                                assert(spec_scan_from(s@, cv, pos0, line0, ch0) == Err::<
                                    Seq<TokenV>,
                                    ErrV,
                                >(ErrV::MissingClosingTag(spec_backtrace(s@, line1, ch3))));
                            }
                            return Err(e);
                        },
                    };
                    proof {
                        lemma_find_some(s@, cv.closing_tag, p3 as int, cend as int);
                    }
                    let mut cws: Option<Whitespace> = None;
                    if cend > p3 {
                        let wr = self.parse_whitespace(cend - 1, &mut d);
                        cws = wr.0;
                    }
                    let content_end = if cws.is_some() {
                        cend - 1
                    } else {
                        cend
                    };
                    let content = s.substring_char(p3, content_end);
                    let cnls = count_newlines(content);
                    proof {
                        lemma_newlines_bound(content@);
                    }
                    d.ch = d.ch + (content_end - p3);
                    d.line = d.line + cnls;
                    let cmd = Command {
                        kind,
                        opening_whitespace: ows,
                        closing_whitespace: cws,
                        content,
                    };
                    let ghost cmdv = TokenV::Command(cmd@);
                    let ghost tsnap2 = tokens@;
                    tokens.push(Token::Command(cmd));
                    proof {
                        lemma_tokens_view_push(tsnap2, Token::Command(cmd));
                    }
                    pos = next;
                    proof {
                        let rest = spec_scan_from(
                            s@,
                            cv,
                            pos as int,
                            d.line as int,
                            d.ch as int,
                        );
                        assert(spec_scan_from(s@, cv, pos0, line0, ch0) == prepend_tokens(
                            mid + seq![cmdv],
                            rest,
                        )) by {
                            match rest {
                                Ok(ts) => {
                                    assert(mid + seq![cmdv] + ts =~= (mid + seq![cmdv]) + ts);
                                },
                                Err(_) => {},
                            }
                        }
                        lemma_prepend_assoc(tv0, mid + seq![cmdv], rest);
                        assert(tokens_view(tokens@) =~= tv0 + (mid + seq![cmdv]));
                    }
                },
            }
        }
    }
}

} // verus!
