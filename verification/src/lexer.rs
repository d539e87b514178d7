//! The lexer: converts a raw source string into tokens, one at a time, on
//! demand. `next_token` is a deterministic function of the input text and
//! the cursor position; its result is pinned down by `spec_next_token`.

use vstd::prelude::*;
use crate::token::{Token, TokenType, TokenV, lookup_ident, spec_lookup_ident};

verus! {

/// The characters skipped between tokens.
pub open spec fn is_whitespace_char(c: char) -> bool {
    c == ' ' || c == '\t' || c == '\n' || c == '\r'
}

/// Decimal digits.
pub open spec fn is_digit_char(c: char) -> bool {
    '0' <= c && c <= '9'
}

/// The characters an identifier or keyword is made of: ASCII alphanumerics
/// and the underscore. An identifier cannot *start* with a digit, because
/// the lexer tries the digit rule first.
pub open spec fn spec_is_letter(c: char) -> bool {
    ('a' <= c && c <= 'z') || ('A' <= c && c <= 'Z') || is_digit_char(c) || c == '_'
}

/// The first position at or after `i` holding a non-whitespace character
/// (or the end of the input).
pub open spec fn spec_skip_ws(s: Seq<char>, i: int) -> int
    decreases s.len() - i,
{
    if 0 <= i < s.len() && is_whitespace_char(s[i]) {
        spec_skip_ws(s, i + 1)
    } else {
        i
    }
}

/// The end of the maximal run of identifier characters starting at `i`.
pub open spec fn spec_ident_end(s: Seq<char>, i: int) -> int
    decreases s.len() - i,
{
    if 0 <= i < s.len() && spec_is_letter(s[i]) {
        spec_ident_end(s, i + 1)
    } else {
        i
    }
}

/// The end of the maximal run of decimal digits starting at `i`.
pub open spec fn spec_int_end(s: Seq<char>, i: int) -> int
    decreases s.len() - i,
{
    if 0 <= i < s.len() && is_digit_char(s[i]) {
        spec_int_end(s, i + 1)
    } else {
        i
    }
}

/// The token found at position `j`, assuming whitespace has already been
/// skipped, together with the cursor position after it.
pub open spec fn spec_token_at(s: Seq<char>, j: int) -> (TokenV, int) {
    if !(0 <= j < s.len()) {
        (TokenV { type_: TokenType::EndOfInput, literal: ""@ }, j)
    } else {
        let c = s[j];
        if c == '=' {
            if j + 1 < s.len() && s[j + 1] == '=' {
                (TokenV { type_: TokenType::Equal, literal: "=="@ }, j + 2)
            } else {
                (TokenV { type_: TokenType::Assign, literal: "="@ }, j + 1)
            }
        } else if c == '!' {
            if j + 1 < s.len() && s[j + 1] == '=' {
                (TokenV { type_: TokenType::NotEqual, literal: "!="@ }, j + 2)
            } else {
                (TokenV { type_: TokenType::Bang, literal: "!"@ }, j + 1)
            }
        } else if c == '+' {
            (TokenV { type_: TokenType::Plus, literal: "+"@ }, j + 1)
        } else if c == '-' {
            (TokenV { type_: TokenType::Minus, literal: "-"@ }, j + 1)
        } else if c == '*' {
            (TokenV { type_: TokenType::Asterisk, literal: "*"@ }, j + 1)
        } else if c == '/' {
            (TokenV { type_: TokenType::Slash, literal: "/"@ }, j + 1)
        } else if c == '<' {
            (TokenV { type_: TokenType::LessThan, literal: "<"@ }, j + 1)
        } else if c == '>' {
            (TokenV { type_: TokenType::GreaterThan, literal: ">"@ }, j + 1)
        } else if c == ',' {
            (TokenV { type_: TokenType::Comma, literal: ","@ }, j + 1)
        } else if c == ';' {
            (TokenV { type_: TokenType::Semicolon, literal: ";"@ }, j + 1)
        } else if c == '(' {
            (TokenV { type_: TokenType::LParen, literal: "("@ }, j + 1)
        } else if c == ')' {
            (TokenV { type_: TokenType::RParen, literal: ")"@ }, j + 1)
        } else if c == '{' {
            (TokenV { type_: TokenType::LBrace, literal: "{"@ }, j + 1)
        } else if c == '}' {
            (TokenV { type_: TokenType::RBrace, literal: "}"@ }, j + 1)
        } else if is_digit_char(c) {
            let k = spec_int_end(s, j);
            (TokenV { type_: TokenType::Integer, literal: s.subrange(j, k) }, k)
        } else if spec_is_letter(c) {
            let k = spec_ident_end(s, j);
            let lit = s.subrange(j, k);
            (TokenV { type_: spec_lookup_ident(lit), literal: lit }, k)
        } else {
            (TokenV { type_: TokenType::Illegal, literal: seq![c] }, j + 1)
        }
    }
}

/// The next token starting at cursor position `i`, and the cursor position
/// after it: skip whitespace, then read one token.
pub open spec fn spec_next_token(s: Seq<char>, i: int) -> (TokenV, int) {
    spec_token_at(s, spec_skip_ws(s, i))
}

pub proof fn lemma_skip_ws_bounds(s: Seq<char>, i: int)
    requires
        0 <= i <= s.len(),
    ensures
        i <= spec_skip_ws(s, i) <= s.len(),
    decreases s.len() - i,
{
    if i < s.len() && is_whitespace_char(s[i]) {
        lemma_skip_ws_bounds(s, i + 1);
    }
}

pub proof fn lemma_ident_end_bounds(s: Seq<char>, i: int)
    requires
        0 <= i <= s.len(),
    ensures
        i <= spec_ident_end(s, i) <= s.len(),
    decreases s.len() - i,
{
    if i < s.len() && spec_is_letter(s[i]) {
        lemma_ident_end_bounds(s, i + 1);
    }
}

pub proof fn lemma_int_end_bounds(s: Seq<char>, i: int)
    requires
        0 <= i <= s.len(),
    ensures
        i <= spec_int_end(s, i) <= s.len(),
    decreases s.len() - i,
{
    if i < s.len() && is_digit_char(s[i]) {
        lemma_int_end_bounds(s, i + 1);
    }
}

/// The lexer always makes progress: a token other than `EndOfInput` moves
/// the cursor strictly forward, and `EndOfInput` is returned exactly when
/// only whitespace is left, with the cursor then never moving again.
pub proof fn lemma_next_token_progress(s: Seq<char>, i: int)
    requires
        0 <= i <= s.len(),
    ensures
        i <= spec_next_token(s, i).1 <= s.len(),
        spec_next_token(s, i).0.type_ != TokenType::EndOfInput ==> i < spec_next_token(s, i).1,
        spec_next_token(s, i).0.type_ == TokenType::EndOfInput ==> spec_next_token(s, i).1
            == spec_skip_ws(s, i),
{
    lemma_skip_ws_bounds(s, i);
    let j = spec_skip_ws(s, i);
    if j < s.len() {
        let c = s[j];
        if is_digit_char(c) {
            lemma_int_end_bounds(s, j + 1);
        } else if spec_is_letter(c) {
            lemma_ident_end_bounds(s, j + 1);
        }
    }
}

/// Once the lexer has answered `EndOfInput`, every later call answers
/// `EndOfInput` again, from the same position.
pub proof fn lemma_end_of_input_stable(s: Seq<char>, i: int)
    requires
        0 <= i <= s.len(),
        spec_next_token(s, i).0.type_ == TokenType::EndOfInput,
    ensures
        spec_next_token(s, spec_next_token(s, i).1) == spec_next_token(s, i),
{
    lemma_next_token_progress(s, i);
}

/// The whole token stream of an input, from position `i` on: every token
/// up to and including the first `EndOfInput`.
pub open spec fn spec_tokenize(s: Seq<char>, i: int) -> Seq<TokenV>
    decreases s.len() - i + 1,
{
    let r = spec_next_token(s, i);
    if r.0.type_ == TokenType::EndOfInput || !(0 <= i && i < r.1 && r.1 <= s.len()) {
        seq![r.0]
    } else {
        seq![r.0] + spec_tokenize(s, r.1)
    }
}

/// The token stream is finite and well formed: at most one token per input
/// character plus the final `EndOfInput`, which is the only `EndOfInput` in
/// the stream.
pub proof fn lemma_spec_tokenize_wf(s: Seq<char>, i: int)
    requires
        0 <= i <= s.len(),
    ensures
        1 <= spec_tokenize(s, i).len() <= s.len() - i + 1,
        spec_tokenize(s, i).last().type_ == TokenType::EndOfInput,
        forall|k: int|
            0 <= k < spec_tokenize(s, i).len() - 1 ==> (#[trigger] spec_tokenize(s, i)[k]).type_
                != TokenType::EndOfInput,
    decreases s.len() - i + 1,
{
    lemma_next_token_progress(s, i);
    let r = spec_next_token(s, i);
    if r.0.type_ != TokenType::EndOfInput {
        lemma_spec_tokenize_wf(s, r.1);
    }
}

/// Tests whether a character may appear in an identifier or keyword.
pub fn is_letter(ch: char) -> (b: bool)
    ensures
        b == spec_is_letter(ch),
{
    ('a' <= ch && ch <= 'z') || ('A' <= ch && ch <= 'Z') || ('0' <= ch && ch <= '9') || ch == '_'
}

fn is_whitespace(ch: char) -> (b: bool)
    ensures
        b == is_whitespace_char(ch),
{
    ch == ' ' || ch == '\t' || ch == '\n' || ch == '\r'
}

fn is_digit(ch: char) -> (b: bool)
    ensures
        b == is_digit_char(ch),
{
    '0' <= ch && ch <= '9'
}

/// Internal state: the input buffer and the cursor, counted in characters.
pub struct Lexer {
    input: String,
    position: usize,
}

impl Lexer {
    /// The input text as a sequence of characters.
    pub closed spec fn input_view(&self) -> Seq<char> {
        self.input@
    }

    /// The cursor: the index of the first character not yet consumed.
    pub closed spec fn pos(&self) -> int {
        self.position as int
    }

    /// The cursor never leaves the input.
    pub open spec fn wf(&self) -> bool {
        0 <= self.pos() <= self.input_view().len()
    }

    pub fn new(input: &str) -> (l: Lexer)
        ensures
            l.wf(),
            l.input_view() == input@,
            l.pos() == 0,
    {
        Lexer { input: String::from_str(input), position: 0 }
    }

    fn len_chars(&self) -> (n: usize)
        ensures
            n == self.input_view().len(),
    {
        self.input.as_str().unicode_len()
    }

    fn char_at(&self, i: usize) -> (c: char)
        requires
            i < self.input_view().len(),
        ensures
            c == self.input_view()[i as int],
    {
        self.input.as_str().get_char(i)
    }

    fn skip_whitespace(&mut self)
        requires
            old(self).wf(),
        ensures
            final(self).wf(),
            final(self).input_view() == old(self).input_view(),
            final(self).pos() == spec_skip_ws(old(self).input_view(), old(self).pos()),
    {
        let n = self.len_chars();
        loop
            invariant
                self.wf(),
                self.input_view() == old(self).input_view(),
                n == self.input_view().len(),
                spec_skip_ws(self.input_view(), self.pos()) == spec_skip_ws(
                    old(self).input_view(),
                    old(self).pos(),
                ),
            ensures
                self.wf(),
                self.input_view() == old(self).input_view(),
                self.pos() == spec_skip_ws(old(self).input_view(), old(self).pos()),
            decreases n - self.position,
        {
            if self.position >= n {
                break;
            }
            let c = self.char_at(self.position);
            if !is_whitespace(c) {
                break;
            }
            self.position = self.position + 1;
        }
    }

    fn read_identifier(&mut self) -> (lit: String)
        requires
            old(self).wf(),
        ensures
            final(self).wf(),
            final(self).input_view() == old(self).input_view(),
            old(self).pos() <= final(self).pos(),
            final(self).pos() == spec_ident_end(old(self).input_view(), old(self).pos()),
            lit@ == old(self).input_view().subrange(old(self).pos(), final(self).pos()),
    {
        let start = self.position;
        let n = self.len_chars();
        loop
            invariant
                self.wf(),
                self.input_view() == old(self).input_view(),
                n == self.input_view().len(),
                start <= self.position,
                spec_ident_end(self.input_view(), self.pos()) == spec_ident_end(
                    old(self).input_view(),
                    old(self).pos(),
                ),
            ensures
                self.wf(),
                self.input_view() == old(self).input_view(),
                start <= self.position,
                self.pos() == spec_ident_end(old(self).input_view(), old(self).pos()),
            decreases n - self.position,
        {
            if self.position >= n {
                break;
            }
            let c = self.char_at(self.position);
            if !is_letter(c) {
                break;
            }
            self.position = self.position + 1;
        }
        let sub = self.input.as_str().substring_char(start, self.position);
        String::from_str(sub)
    }

    fn read_number(&mut self) -> (lit: String)
        requires
            old(self).wf(),
        ensures
            final(self).wf(),
            final(self).input_view() == old(self).input_view(),
            old(self).pos() <= final(self).pos(),
            final(self).pos() == spec_int_end(old(self).input_view(), old(self).pos()),
            lit@ == old(self).input_view().subrange(old(self).pos(), final(self).pos()),
    {
        let start = self.position;
        let n = self.len_chars();
        loop
            invariant
                self.wf(),
                self.input_view() == old(self).input_view(),
                n == self.input_view().len(),
                start <= self.position,
                spec_int_end(self.input_view(), self.pos()) == spec_int_end(
                    old(self).input_view(),
                    old(self).pos(),
                ),
            ensures
                self.wf(),
                self.input_view() == old(self).input_view(),
                start <= self.position,
                self.pos() == spec_int_end(old(self).input_view(), old(self).pos()),
            decreases n - self.position,
        {
            if self.position >= n {
                break;
            }
            let c = self.char_at(self.position);
            if !is_digit(c) {
                break;
            }
            self.position = self.position + 1;
        }
        let sub = self.input.as_str().substring_char(start, self.position);
        String::from_str(sub)
    }

    /// Looks at the character one past the cursor, if any.
    fn peek_char(&self, n: usize) -> (c: Option<char>)
        requires
            self.wf(),
            n == self.input_view().len(),
        ensures
            self.pos() + 1 < self.input_view().len() ==> c == Some(
                self.input_view()[self.pos() + 1],
            ),
            self.pos() + 1 >= self.input_view().len() ==> c is None,
    {
        if self.position < n && self.position + 1 < n {
            Some(self.char_at(self.position + 1))
        } else {
            None
        }
    }

    /// Returns the next token and advances the cursor past it: skips
    /// whitespace, then matches one token rule. Once the end of the input is
    /// reached it returns `EndOfInput` from then on, without moving.
    pub fn next_token(&mut self) -> (t: Token)
        requires
            old(self).wf(),
        ensures
            final(self).wf(),
            final(self).input_view() == old(self).input_view(),
            t@ == spec_next_token(old(self).input_view(), old(self).pos()).0,
            final(self).pos() == spec_next_token(old(self).input_view(), old(self).pos()).1,
    {
        self.skip_whitespace();
        let n = self.len_chars();
        if self.position >= n {
            return Token::new(TokenType::EndOfInput, "");
        }
        let c = self.char_at(self.position);
        if c == '=' {
            let p = self.peek_char(n);
            if p == Some('=') {
                self.position = self.position + 2;
                Token::new(TokenType::Equal, "==")
            } else {
                self.position = self.position + 1;
                Token::new(TokenType::Assign, "=")
            }
        } else if c == '!' {
            let p = self.peek_char(n);
            if p == Some('=') {
                self.position = self.position + 2;
                Token::new(TokenType::NotEqual, "!=")
            } else {
                self.position = self.position + 1;
                Token::new(TokenType::Bang, "!")
            }
        } else if c == '+' {
            self.position = self.position + 1;
            Token::new(TokenType::Plus, "+")
        } else if c == '-' {
            self.position = self.position + 1;
            Token::new(TokenType::Minus, "-")
        } else if c == '*' {
            self.position = self.position + 1;
            Token::new(TokenType::Asterisk, "*")
        } else if c == '/' {
            self.position = self.position + 1;
            Token::new(TokenType::Slash, "/")
        } else if c == '<' {
            self.position = self.position + 1;
            Token::new(TokenType::LessThan, "<")
        } else if c == '>' {
            self.position = self.position + 1;
            Token::new(TokenType::GreaterThan, ">")
        } else if c == ',' {
            self.position = self.position + 1;
            Token::new(TokenType::Comma, ",")
        } else if c == ';' {
            self.position = self.position + 1;
            Token::new(TokenType::Semicolon, ";")
        } else if c == '(' {
            self.position = self.position + 1;
            Token::new(TokenType::LParen, "(")
        } else if c == ')' {
            self.position = self.position + 1;
            Token::new(TokenType::RParen, ")")
        } else if c == '{' {
            self.position = self.position + 1;
            Token::new(TokenType::LBrace, "{")
        } else if c == '}' {
            self.position = self.position + 1;
            Token::new(TokenType::RBrace, "}")
        } else if is_digit(c) {
            let lit = self.read_number();
            Token { type_: TokenType::Integer, literal: lit }
        } else if is_letter(c) {
            let lit = self.read_identifier();
            let type_ = lookup_ident(lit.as_str());
            Token { type_, literal: lit }
        } else {
            let sub = self.input.as_str().substring_char(self.position, self.position + 1);
            let lit = String::from_str(sub);
            self.position = self.position + 1;
            proof {
                assert(lit@ =~= seq![old(self).input_view()[spec_skip_ws(
                    old(self).input_view(),
                    old(self).pos(),
                )]]);
            }
            Token { type_: TokenType::Illegal, literal: lit }
        }
    }
}

} // verus!
