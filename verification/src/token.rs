//! The token model: the closed set of token kinds, the token value type
//! (a kind paired with the exact literal text matched), and the keyword
//! table used to classify identifier-shaped literals.

use vstd::prelude::*;

verus! {

/// The closed enumeration of token kinds.
#[derive(Debug, Clone, Copy, PartialEq, Eq, Structural)]
pub enum TokenType {
    Illegal,
    EndOfInput,
    // Identifiers + literals
    Identifier,
    Integer,
    // Operators
    Assign,
    Plus,
    Minus,
    Bang,
    Asterisk,
    Slash,
    LessThan,
    GreaterThan,
    Equal,
    NotEqual,
    // Delimiters
    Comma,
    Semicolon,
    LParen,
    RParen,
    LBrace,
    RBrace,
    // Keywords
    Function,
    Let,
    True,
    False,
    If,
    Else,
    Return,
}

/// The smallest lexical unit: a kind and the literal text matched for it.
#[derive(Debug)]
pub struct Token {
    pub type_: TokenType,
    pub literal: String,
}

/// The mathematical image of a token: its kind and its literal as a
/// sequence of characters.
pub ghost struct TokenV {
    pub type_: TokenType,
    pub literal: Seq<char>,
}

impl View for Token {
    type V = TokenV;

    open spec fn view(&self) -> TokenV {
        TokenV { type_: self.type_, literal: self.literal@ }
    }
}

impl Clone for Token {
    fn clone(&self) -> (t: Token)
        ensures
            t == *self,
    {
        Token { type_: self.type_, literal: self.literal.clone() }
    }
}

impl Token {
    pub fn new(type_: TokenType, literal: &str) -> (t: Token)
        ensures
            t.type_ == type_,
            t.literal@ == literal@,
    {
        Token { type_, literal: String::from_str(literal) }
    }
}

/// The fixed keyword table: each keyword literal paired with the token kind
/// it denotes, in the order `lookup_ident` consults it.
pub open spec fn spec_keywords() -> Seq<(Seq<char>, TokenType)> {
    seq![
        ("fn"@, TokenType::Function),
        ("let"@, TokenType::Let),
        ("true"@, TokenType::True),
        ("false"@, TokenType::False),
        ("if"@, TokenType::If),
        ("else"@, TokenType::Else),
        ("return"@, TokenType::Return),
    ]
}

/// The kind an identifier-shaped literal denotes: the matching keyword's
/// kind, or `Identifier` when it matches no keyword.
pub open spec fn spec_lookup_ident(ident: Seq<char>) -> TokenType {
    if ident == "fn"@ {
        TokenType::Function
    } else if ident == "let"@ {
        TokenType::Let
    } else if ident == "true"@ {
        TokenType::True
    } else if ident == "false"@ {
        TokenType::False
    } else if ident == "if"@ {
        TokenType::If
    } else if ident == "else"@ {
        TokenType::Else
    } else if ident == "return"@ {
        TokenType::Return
    } else {
        TokenType::Identifier
    }
}

/// Builds the keyword table as a vector of (literal, kind) pairs.
pub fn keywords() -> (kw: Vec<(String, TokenType)>)
    ensures
        kw@.len() == spec_keywords().len(),
        forall|i: int|
            0 <= i < kw@.len() ==> (#[trigger] kw@[i]).0@ == spec_keywords()[i].0 && kw@[i].1
                == spec_keywords()[i].1,
{
    let mut kw: Vec<(String, TokenType)> = Vec::new();
    kw.push((String::from_str("fn"), TokenType::Function));
    kw.push((String::from_str("let"), TokenType::Let));
    kw.push((String::from_str("true"), TokenType::True));
    kw.push((String::from_str("false"), TokenType::False));
    kw.push((String::from_str("if"), TokenType::If));
    kw.push((String::from_str("else"), TokenType::Else));
    kw.push((String::from_str("return"), TokenType::Return));
    kw
}

/// Classifies an identifier-shaped literal: a hit in the keyword table
/// yields the keyword's kind, a miss yields `Identifier`.
pub fn lookup_ident(ident: &str) -> (t: TokenType)
    ensures
        t == spec_lookup_ident(ident@),
{
    let kw = keywords();
    let s = String::from_str(ident);
    let mut i: usize = 0;
    while i < kw.len()
        invariant
            kw@.len() == spec_keywords().len(),
            forall|k: int|
                0 <= k < kw@.len() ==> (#[trigger] kw@[k]).0@ == spec_keywords()[k].0 && kw@[k].1
                    == spec_keywords()[k].1,
            s@ == ident@,
            i <= kw@.len(),
            forall|k: int| 0 <= k < i ==> ident@ != (#[trigger] spec_keywords()[k]).0,
        decreases kw@.len() - i,
    {
        if s == kw[i].0 {
            return kw[i].1;
        }
        i += 1;
    }
    TokenType::Identifier
}

impl TokenType {
    /// The canonical symbol each kind is rendered as in diagnostics.
    pub open spec fn spec_symbol(self) -> Seq<char> {
        match self {
            TokenType::Illegal => "ILLEGAL"@,
            TokenType::EndOfInput => "EOF"@,
            TokenType::Identifier => "Ident"@,
            TokenType::Integer => "int"@,
            TokenType::Assign => "="@,
            TokenType::Plus => "+"@,
            TokenType::Minus => "-"@,
            TokenType::Bang => "!"@,
            TokenType::Asterisk => "*"@,
            TokenType::Slash => "/"@,
            TokenType::LessThan => "<"@,
            TokenType::GreaterThan => ">"@,
            TokenType::Equal => "=="@,
            TokenType::NotEqual => "!="@,
            TokenType::Comma => ","@,
            TokenType::Semicolon => ";"@,
            TokenType::LParen => "("@,
            TokenType::RParen => ")"@,
            TokenType::LBrace => "{"@,
            TokenType::RBrace => "}"@,
            TokenType::Function => "FUNCTION"@,
            TokenType::Let => "LET"@,
            TokenType::True => "true"@,
            TokenType::False => "false"@,
            TokenType::If => "if"@,
            TokenType::Else => "else"@,
            TokenType::Return => "return"@,
        }
    }

    /// Renders the kind as its canonical symbol for diagnostics.
    pub fn symbol(&self) -> (s: String)
        ensures
            s@ == self.spec_symbol(),
    {
        match self {
            TokenType::Illegal => String::from_str("ILLEGAL"),
            TokenType::EndOfInput => String::from_str("EOF"),
            TokenType::Identifier => String::from_str("Ident"),
            TokenType::Integer => String::from_str("int"),
            TokenType::Assign => String::from_str("="),
            TokenType::Plus => String::from_str("+"),
            TokenType::Minus => String::from_str("-"),
            TokenType::Bang => String::from_str("!"),
            TokenType::Asterisk => String::from_str("*"),
            TokenType::Slash => String::from_str("/"),
            TokenType::LessThan => String::from_str("<"),
            TokenType::GreaterThan => String::from_str(">"),
            TokenType::Equal => String::from_str("=="),
            TokenType::NotEqual => String::from_str("!="),
            TokenType::Comma => String::from_str(","),
            TokenType::Semicolon => String::from_str(";"),
            TokenType::LParen => String::from_str("("),
            TokenType::RParen => String::from_str(")"),
            TokenType::LBrace => String::from_str("{"),
            TokenType::RBrace => String::from_str("}"),
            TokenType::Function => String::from_str("FUNCTION"),
            TokenType::Let => String::from_str("LET"),
            TokenType::True => String::from_str("true"),
            TokenType::False => String::from_str("false"),
            TokenType::If => String::from_str("if"),
            TokenType::Else => String::from_str("else"),
            TokenType::Return => String::from_str("return"),
        }
    }
}

} // verus!
