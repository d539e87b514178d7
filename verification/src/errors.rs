//! Parse diagnostics: a kind from a closed taxonomy plus a rendered message.
//! The parser accumulates these instead of stopping at the first failure.

use vstd::prelude::*;

verus! {

/// The closed taxonomy of parse diagnostics.
#[derive(Debug, Clone, Copy, PartialEq, Eq, Structural)]
pub enum ParseErrorKind {
    /// An `expect_peek` check failed: the next token was not the kind the
    /// grammar requires here.
    UnexpectedToken,
    /// An expression began with a token no prefix rule can start.
    NoPrefixParseRule,
    /// An integer literal does not fit the target integer width.
    IntegerLiteralOverflow,
    /// An `Illegal` token reached the parser.
    IllegalCharacter,
}

/// One reported parse error: its kind and a human-readable message.
#[derive(Debug)]
pub struct ParseError {
    pub kind: ParseErrorKind,
    pub msg: String,
}

/// The mathematical image of a parse error.
#[verifier::ext_equal]
pub ghost struct ParseErrorV {
    pub kind: ParseErrorKind,
    pub msg: Seq<char>,
}

impl View for ParseError {
    type V = ParseErrorV;

    open spec fn view(&self) -> ParseErrorV {
        ParseErrorV { kind: self.kind, msg: self.msg@ }
    }
}

impl Clone for ParseError {
    fn clone(&self) -> (e: ParseError)
        ensures
            e == *self,
    {
        ParseError { kind: self.kind, msg: self.msg.clone() }
    }
}

impl ParseError {
    pub fn new(kind: ParseErrorKind, msg: String) -> (e: ParseError)
        ensures
            e.kind == kind,
            e.msg == msg,
    {
        ParseError { kind, msg }
    }
}

impl ParseErrorKind {
    /// The human-readable name of the kind.
    pub open spec fn spec_describe(self) -> Seq<char> {
        match self {
            ParseErrorKind::UnexpectedToken => "Unexpected Token"@,
            ParseErrorKind::NoPrefixParseRule => "No Prefix Parse Rule"@,
            ParseErrorKind::IntegerLiteralOverflow => "Integer Literal Overflow"@,
            ParseErrorKind::IllegalCharacter => "Illegal Character"@,
        }
    }

    /// Renders the kind's human-readable name.
    pub fn describe(&self) -> (s: String)
        ensures
            s@ == self.spec_describe(),
    {
        match self {
            ParseErrorKind::UnexpectedToken => String::from_str("Unexpected Token"),
            ParseErrorKind::NoPrefixParseRule => String::from_str("No Prefix Parse Rule"),
            ParseErrorKind::IntegerLiteralOverflow => String::from_str("Integer Literal Overflow"),
            ParseErrorKind::IllegalCharacter => String::from_str("Illegal Character"),
        }
    }
}

impl ParseError {
    /// Renders the error as its kind's name, a separating colon, and the
    /// message.
    pub fn to_string(&self) -> (s: String)
        ensures
            s@ == self.kind.spec_describe() + ": "@ + self.msg@,
    {
        let mut s = self.kind.describe();
        s.append(": ");
        s.append(self.msg.as_str());
        s
    }
}

/// The ordered list of diagnostics collected during one parse.
pub type ParseErrors = Vec<ParseError>;

} // verus!
