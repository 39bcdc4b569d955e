//! A template-directive compiler: scans a text document for embedded
//! directives (interpolation expressions and executable statements) delimited
//! by configurable tag markers, and generates an ordered instruction program
//! that reconstitutes the final text from literal fragments, evaluated
//! expressions, and executed statements.
//!
//! The scanner ([`Parser::parse_tokens`]) turns raw input and a
//! [`ParserConfig`] into a sequence of [`Token`]s or a positioned error; the
//! code generator ([`Parser::generate_js`]) turns that sequence into the
//! source text of an ordered instruction program for the host to compile and
//! run. Both passes are pure and specified against character-sequence models
//! of their inputs.

pub mod error;
pub mod escape;
pub mod gen;
pub mod resolve;
pub mod scan;
pub mod text;
pub mod trim;
pub mod utils;

use vstd::prelude::*;

verus! {

/// The kind of a parsed directive: an interpolation splices its evaluated
/// result into the output; an execution runs for effect only.
#[derive(Debug, PartialEq, Clone, Copy)]
pub enum CommandType {
    Interpolate,
    Execution,
}

/// A whitespace-trim request found beside a tag: `Single` removes at most one
/// line terminator, `Multiple` removes all contiguous whitespace on that side.
#[derive(Debug, PartialEq, Clone, Copy)]
pub enum Whitespace {
    Single,
    Multiple,
}

/// A parsed directive: its kind, the trim requests found beside its opening
/// and closing tags, and its raw body text, passed through uninterpreted.
#[derive(Debug, PartialEq)]
pub struct Command<'a> {
    pub kind: CommandType,
    pub opening_whitespace: Option<Whitespace>,
    pub closing_whitespace: Option<Whitespace>,
    pub content: &'a str,
}

/// One token of the scanned input: a literal text fragment borrowed from the
/// input, or a directive.
#[derive(Debug, PartialEq)]
pub enum Token<'a> {
    Text(&'a str),
    Command(Command<'a>),
}

/// The mathematical model of a [`Command`]: the borrowed body is replaced by
/// the character sequence it denotes.
pub struct CommandV {
    pub kind: CommandType,
    pub opening_whitespace: Option<Whitespace>,
    pub closing_whitespace: Option<Whitespace>,
    pub content: Seq<char>,
}

/// The mathematical model of a [`Token`].
pub enum TokenV {
    Text(Seq<char>),
    Command(CommandV),
}

impl<'a> View for Command<'a> {
    type V = CommandV;

    open spec fn view(&self) -> CommandV {
        CommandV {
            kind: self.kind,
            opening_whitespace: self.opening_whitespace,
            closing_whitespace: self.closing_whitespace,
            content: self.content@,
        }
    }
}

impl<'a> View for Token<'a> {
    type V = TokenV;

    open spec fn view(&self) -> TokenV {
        match self {
            Token::Text(t) => TokenV::Text(t@),
            Token::Command(c) => TokenV::Command(c@),
        }
    }
}

/// The models of a sequence of tokens.
pub open spec fn tokens_view<'a>(ts: Seq<Token<'a>>) -> Seq<TokenV> {
    ts.map_values(|t: Token<'a>| t@)
}

/// The mathematical model of a [`ParserConfig`].
pub struct ConfigV {
    pub opening_tag: Seq<char>,
    pub closing_tag: Seq<char>,
    pub interpolate: char,
    pub execution: char,
    pub single_whitespace: char,
    pub multiple_whitespace: char,
    pub global_var: Seq<char>,
}

impl ConfigV {
    /// Well-formedness: the tag delimiters are non-empty and distinct, and at
    /// most one of the two command-type markers is the default sentinel
    /// `'\0'` (an unmarked command would otherwise be ambiguous).
    pub open spec fn wf(&self) -> bool {
        &&& self.opening_tag.len() > 0
        &&& self.closing_tag.len() > 0
        &&& self.opening_tag != self.closing_tag
        &&& !(self.interpolate == '\0' && self.execution == '\0')
    }
}

/// The tag configuration: the delimiter pair, the command-type markers, the
/// trim markers, and the identifier of the output accumulator in the
/// generated program. A marker value of `'\0'` declares that command type as
/// the default taken when no marker character is present.
#[derive(Debug, Clone)]
pub struct ParserConfig {
    pub opening_tag: String,
    pub closing_tag: String,
    pub interpolate: char,
    pub execution: char,
    pub single_whitespace: char,
    pub multiple_whitespace: char,
    pub global_var: String,
}

impl View for ParserConfig {
    type V = ConfigV;

    open spec fn view(&self) -> ConfigV {
        ConfigV {
            opening_tag: self.opening_tag@,
            closing_tag: self.closing_tag@,
            interpolate: self.interpolate,
            execution: self.execution,
            single_whitespace: self.single_whitespace,
            multiple_whitespace: self.multiple_whitespace,
            global_var: self.global_var@,
        }
    }
}

impl ParserConfig {
    /// Builds a configuration from its parts. The tag delimiters must be
    /// non-empty and distinct, and at most one command-type marker may be the
    /// `'\0'` default sentinel.
    pub fn new(opt: String, clt: String, inte: char, ex: char, sw: char, mw: char, gv: String) -> (r:
        ParserConfig)
        requires
            opt@.len() > 0,
            clt@.len() > 0,
            opt@ != clt@,
            !(inte == '\0' && ex == '\0'),
        ensures
            r@ == (ConfigV {
                opening_tag: opt@,
                closing_tag: clt@,
                interpolate: inte,
                execution: ex,
                single_whitespace: sw,
                multiple_whitespace: mw,
                global_var: gv@,
            }),
            r@.wf(),
    {
        ParserConfig {
            opening_tag: opt,
            closing_tag: clt,
            interpolate: inte,
            execution: ex,
            single_whitespace: sw,
            multiple_whitespace: mw,
            global_var: gv,
        }
    }

    pub fn opening_tag(&self) -> (r: String)
        ensures
            r@ == self@.opening_tag,
    {
        self.opening_tag.clone()
    }

    /// Replaces the opening tag; the delimiters must stay non-empty and
    /// distinct.
    pub fn set_opening_tag(&mut self, val: String)
        requires
            val@.len() > 0,
            val@ != old(self)@.closing_tag,
        ensures
            final (self)@ == (ConfigV { opening_tag: val@, ..old(self)@ }),
    {
        self.opening_tag = val;
    }

    pub fn closing_tag(&self) -> (r: String)
        ensures
            r@ == self@.closing_tag,
    {
        self.closing_tag.clone()
    }

    /// Replaces the closing tag; the delimiters must stay non-empty and
    /// distinct.
    pub fn set_closing_tag(&mut self, val: String)
        requires
            val@.len() > 0,
            val@ != old(self)@.opening_tag,
        ensures
            final (self)@ == (ConfigV { closing_tag: val@, ..old(self)@ }),
    {
        self.closing_tag = val;
    }

    pub fn global_var(&self) -> (r: String)
        ensures
            r@ == self@.global_var,
    {
        self.global_var.clone()
    }

    pub fn set_global_var(&mut self, val: String)
        ensures
            final (self)@ == (ConfigV { global_var: val@, ..old(self)@ }),
    {
        self.global_var = val;
    }
}

/// The scanner's running position: the number of line terminators crossed and
/// the absolute character offset into the input, both advanced monotonically
/// as input is consumed.
pub struct ParsingData {
    pub(crate) line: usize,
    pub(crate) ch: usize,
}

/// A single scan/generate pass over one input text under one configuration.
/// Tokens borrow from the input and must not outlive it.
pub struct Parser<'a> {
    pub content: &'a str,
    pub config: &'a ParserConfig,
}

impl<'a> Parser<'a> {
    pub fn new(content: &'a str, config: &'a ParserConfig) -> (r: Parser<'a>)
        ensures
            r.content@ == content@,
            r.config == config,
    {
        Parser { content, config }
    }
}

} // verus!
