//! The parser: drives the token stream with two-token lookahead, dispatches
//! by token kind to statement and expression rules, and assembles the AST by
//! precedence climbing (Pratt parsing). It accumulates diagnostics instead
//! of stopping at the first failure: a failed statement is abandoned and the
//! pass continues at the next token.
//!
//! Every parsing step is pinned down by a spec function over the token
//! sequence: `spec_parse_program` and its helpers say, position by position,
//! which nodes are built, where the cursor ends up, and which diagnostics
//! are appended.

use vstd::prelude::*;
use crate::token::{Token, TokenType, TokenV};
use crate::lexer::{
    Lexer, is_digit_char, is_whitespace_char, spec_next_token, spec_tokenize,
    lemma_next_token_progress, lemma_spec_tokenize_wf,
};
use crate::ast::{
    Identifier, IntegerLiteral, BooleanLiteral, PrefixExpression, InfixExpression, BlockStatement,
    IfExpression, FunctionLiteral, CallExpression, Expression, LetStatement, ReturnStatements,
    ExpressionStatement, Statement, Program, IdentV, BlockV, ExprV, StmtV, view_ident_seq,
    view_expr_seq, view_stmt_seq, view_opt_expr, view_opt_stmt,
};
use crate::errors::{ParseError, ParseErrorKind, ParseErrorV, ParseErrors};

verus! {

broadcast use vstd::std_specs::vec::group_vec_axioms;

// ------------------------- precedence -------------------------

/// The binding strengths, in increasing order.
#[derive(Debug, Clone, Copy, PartialEq, Eq, Structural)]
pub enum Precedence {
    Lowest,
    Equals,
    LessGreater,
    Sum,
    Product,
    Prefix,
    Call,
}

impl Precedence {
    /// The numeric rank used to compare binding strengths.
    pub open spec fn spec_value(self) -> int {
        match self {
            Precedence::Lowest => 0,
            Precedence::Equals => 1,
            Precedence::LessGreater => 2,
            Precedence::Sum => 3,
            Precedence::Product => 4,
            Precedence::Prefix => 5,
            Precedence::Call => 6,
        }
    }

    pub fn value(self) -> (v: u8)
        ensures
            v as int == self.spec_value(),
    {
        match self {
            Precedence::Lowest => 0,
            Precedence::Equals => 1,
            Precedence::LessGreater => 2,
            Precedence::Sum => 3,
            Precedence::Product => 4,
            Precedence::Prefix => 5,
            Precedence::Call => 6,
        }
    }
}

/// The precedence table: the binding strength of each infix-capable token
/// kind; every other kind binds at `Lowest`.
pub open spec fn spec_precedence_of(t: TokenType) -> Precedence {
    match t {
        TokenType::Equal => Precedence::Equals,
        TokenType::NotEqual => Precedence::Equals,
        TokenType::LessThan => Precedence::LessGreater,
        TokenType::GreaterThan => Precedence::LessGreater,
        TokenType::Plus => Precedence::Sum,
        TokenType::Minus => Precedence::Sum,
        TokenType::Slash => Precedence::Product,
        TokenType::Asterisk => Precedence::Product,
        TokenType::LParen => Precedence::Call,
        _ => Precedence::Lowest,
    }
}

pub fn precedence_of(t: TokenType) -> (p: Precedence)
    ensures
        p == spec_precedence_of(t),
{
    match t {
        TokenType::Equal => Precedence::Equals,
        TokenType::NotEqual => Precedence::Equals,
        TokenType::LessThan => Precedence::LessGreater,
        TokenType::GreaterThan => Precedence::LessGreater,
        TokenType::Plus => Precedence::Sum,
        TokenType::Minus => Precedence::Sum,
        TokenType::Slash => Precedence::Product,
        TokenType::Asterisk => Precedence::Product,
        TokenType::LParen => Precedence::Call,
        _ => Precedence::Lowest,
    }
}

// ------------------------- integer literals -------------------------

/// All characters of `s` are decimal digits.
pub open spec fn spec_all_digits(s: Seq<char>) -> bool {
    forall|i: int| 0 <= i < s.len() ==> is_digit_char(#[trigger] s[i])
}

/// The numeric value of one digit character.
pub open spec fn spec_digit_val(c: char) -> int {
    c as int - '0' as int
}

/// The value of a digit string read in base ten.
pub open spec fn spec_digits_val(s: Seq<char>) -> int
    decreases s,
{
    if s.len() == 0 {
        0
    } else {
        spec_digits_val(s.drop_last()) * 10 + spec_digit_val(s.last())
    }
}

/// What an integer literal parses to: its base-ten value, if the text is a
/// nonempty run of digits whose value fits in an `i64`; nothing otherwise.
pub open spec fn spec_parse_i64(s: Seq<char>) -> Option<i64> {
    if s.len() == 0 || !spec_all_digits(s) {
        None
    } else if spec_digits_val(s) > i64::MAX as int {
        None
    } else {
        Some(spec_digits_val(s) as i64)
    }
}

proof fn lemma_digits_val_nonneg(s: Seq<char>)
    requires
        spec_all_digits(s),
    ensures
        spec_digits_val(s) >= 0,
    decreases s,
{
    if s.len() > 0 {
        assert(spec_all_digits(s.drop_last()));
        lemma_digits_val_nonneg(s.drop_last());
    }
}

/// Reading more digits can only increase the value.
proof fn lemma_digits_val_monotone(s: Seq<char>, k: int)
    requires
        spec_all_digits(s),
        0 <= k <= s.len(),
    ensures
        spec_digits_val(s.take(k)) <= spec_digits_val(s),
    decreases s.len() - k,
{
    if k < s.len() {
        let a = s.take(k);
        let b = s.take(k + 1);
        assert(b.drop_last() =~= a);
        assert(spec_all_digits(a));
        lemma_digits_val_nonneg(a);
        assert(spec_digits_val(b) == spec_digits_val(a) * 10 + spec_digit_val(b.last()));
        lemma_digits_val_monotone(s, k + 1);
    } else {
        assert(s.take(k) =~= s);
    }
}

/// Parses a run of decimal digits as an `i64`, reporting overflow exactly
/// when the value does not fit.
pub fn parse_int(s: &str) -> (r: Option<i64>)
    ensures
        r == spec_parse_i64(s@),
{
    let limit: u64 = 9223372036854775807;
    proof {
        assert(limit as int == i64::MAX as int);
    }
    let n = s.unicode_len();
    if n == 0 {
        return None;
    }
    let mut acc: u64 = 0;
    let mut i: usize = 0;
    while i < n
        invariant
            0 <= i <= n,
            n == s@.len(),
            spec_all_digits(s@.take(i as int)),
            acc as int == spec_digits_val(s@.take(i as int)),
            acc <= limit,
            limit as int == i64::MAX as int,
        decreases n - i,
    {
        let c = s.get_char(i);
        if !('0' <= c && c <= '9') {
            proof {
                assert(!is_digit_char(s@[i as int]));
            }
            return None;
        }
        let d: u64 = (c as u32 as u64) - 48;
        proof {
            assert(s@.take(i + 1 as int).drop_last() =~= s@.take(i as int));
            assert(s@.take(i + 1 as int).last() == s@[i as int]);
            assert(d as int == spec_digit_val(s@[i as int]));
        }
        if acc > (limit - d) / 10 {
            proof {
                let m = limit as int;
                let q = (m - d) / 10;
                assert(m - d == 10 * q + ((m - d) % 10));
                assert(acc as int * 10 >= (q + 1) * 10);
                assert(spec_digits_val(s@.take(i + 1 as int)) > m);
                if spec_all_digits(s@) {
                    lemma_digits_val_monotone(s@, i + 1);
                    assert(spec_digits_val(s@) > i64::MAX as int);
                } else {
                    assert(spec_parse_i64(s@) is None);
                }
            }
            return None;
        }
        proof {
            let m = limit as int;
            let q = (m - d) / 10;
            assert(m - d == 10 * q + ((m - d) % 10));
            assert(acc as int * 10 <= q * 10);
        }
        acc = acc * 10 + d;
        i = i + 1;
    }
    proof {
        assert(s@.take(n as int) =~= s@);
        assert(acc as int <= i64::MAX as int);
    }
    Some(acc as i64)
}

// ------------------------- diagnostics -------------------------

/// The message recorded when the token after the current one is not the
/// kind the grammar requires.
pub open spec fn spec_peek_error_msg(expected: TokenType, actual: TokenType) -> Seq<char> {
    "expected next token to be "@ + expected.spec_symbol() + " , got "@ + actual.spec_symbol()
        + " instead"@
}

/// The message recorded when no prefix rule can start an expression at the
/// current token.
pub open spec fn spec_no_prefix_msg(t: TokenType) -> Seq<char> {
    "no prefix parse rule for "@ + t.spec_symbol() + " found"@
}

/// The message recorded when an integer literal does not fit.
pub open spec fn spec_int_overflow_msg(lit: Seq<char>) -> Seq<char> {
    "could not parse "@ + lit + " as integer"@
}

/// The message recorded when an `Illegal` token reaches the parser.
pub open spec fn spec_illegal_char_msg(lit: Seq<char>) -> Seq<char> {
    "illegal character "@ + lit
}

// ------------------------- the spec parser -------------------------

/// The token at `pos`, with `EndOfInput` padding beyond the end.
pub open spec fn tok_at(toks: Seq<TokenV>, pos: int) -> TokenV {
    if 0 <= pos < toks.len() {
        toks[pos]
    } else {
        TokenV { type_: TokenType::EndOfInput, literal: ""@ }
    }
}

/// One step of the cursor, stopping at the end of the tokens.
pub open spec fn spec_advance(toks: Seq<TokenV>, pos: int) -> int {
    if pos < toks.len() {
        pos + 1
    } else {
        pos
    }
}

/// The outcome of one `expect_peek` check: whether the next token matched
/// (the cursor then moved onto it), and the diagnostic recorded if not.
#[verifier::ext_equal]
pub ghost struct SpecExpect {
    pub ok: bool,
    pub pos: int,
    pub errs: Seq<ParseErrorV>,
}

/// The outcome of one parse rule: the node built (if the rule succeeded),
/// the cursor position after it, and the diagnostics appended.
#[verifier::ext_equal]
pub ghost struct SpecRes<T> {
    pub node: Option<T>,
    pub pos: int,
    pub errs: Seq<ParseErrorV>,
}

/// The outcome of parsing a block, which always yields a block node: the
/// statements that parsed, with diagnostics for those that did not.
#[verifier::ext_equal]
pub ghost struct SpecBlockRes {
    pub block: BlockV,
    pub pos: int,
    pub errs: Seq<ParseErrorV>,
}

pub open spec fn spec_expect_peek(toks: Seq<TokenV>, pos: int, t: TokenType) -> SpecExpect {
    let pk = tok_at(toks, pos + 1);
    if pk.type_ == t {
        SpecExpect { ok: true, pos: spec_advance(toks, pos), errs: Seq::empty() }
    } else {
        SpecExpect {
            ok: false,
            pos,
            errs: seq![
                ParseErrorV {
                    kind: ParseErrorKind::UnexpectedToken,
                    msg: spec_peek_error_msg(t, pk.type_),
                },
            ],
        }
    }
}

/// The whole pass: starting at `pos`, parse statements until `EndOfInput`,
/// appending each one that parses and always stepping forward after a
/// statement, so that one failure cannot stall the pass.
#[verifier::opaque]
pub open spec fn spec_parse_program_loop(
    toks: Seq<TokenV>,
    pos: int,
    acc: Seq<StmtV>,
    acc_errs: Seq<ParseErrorV>,
) -> (Seq<StmtV>, Seq<ParseErrorV>)
    decreases toks.len() - pos, 10int,
{
    if pos < 0 || pos >= toks.len() || tok_at(toks, pos).type_ == TokenType::EndOfInput {
        (acc, acc_errs)
    } else {
        let r = spec_parse_statement(toks, pos);
        let p1 = if pos <= r.pos <= toks.len() {
            r.pos
        } else {
            pos
        };
        let p2 = spec_advance(toks, p1);
        let acc2 = match r.node {
            Some(s) => acc.push(s),
            None => acc,
        };
        spec_parse_program_loop(toks, p2, acc2, acc_errs + r.errs)
    }
}

pub open spec fn spec_parse_program_from(toks: Seq<TokenV>, pos: int) -> (
    Seq<StmtV>,
    Seq<ParseErrorV>,
) {
    spec_parse_program_loop(toks, pos, Seq::empty(), Seq::empty())
}

/// What parsing a whole token stream yields: the program's statements and
/// the diagnostics, in source order.
pub open spec fn spec_parse_program(toks: Seq<TokenV>) -> (Seq<StmtV>, Seq<ParseErrorV>) {
    spec_parse_program_from(toks, 0)
}

/// Statement dispatch by the current token's kind.
#[verifier::opaque]
pub open spec fn spec_parse_statement(toks: Seq<TokenV>, pos: int) -> SpecRes<StmtV>
    decreases toks.len() - pos, 8int,
{
    match tok_at(toks, pos).type_ {
        TokenType::Let => spec_parse_let_statement(toks, pos),
        TokenType::Return => spec_parse_ret_statement(toks, pos),
        _ => spec_parse_expression_statement(toks, pos),
    }
}

/// `let IDENT = expression ;?` — a missing name or `=` abandons the
/// statement with an `UnexpectedToken` diagnostic.
#[verifier::opaque]
pub open spec fn spec_parse_let_statement(toks: Seq<TokenV>, pos: int) -> SpecRes<StmtV>
    decreases toks.len() - pos, 6int,
{
    let let_tok = tok_at(toks, pos);
    let r1 = spec_expect_peek(toks, pos, TokenType::Identifier);
    if !r1.ok {
        SpecRes { node: None, pos: r1.pos, errs: r1.errs }
    } else {
        let name_tok = tok_at(toks, r1.pos);
        let r2 = spec_expect_peek(toks, r1.pos, TokenType::Assign);
        if !r2.ok {
            SpecRes { node: None, pos: r2.pos, errs: r2.errs }
        } else {
            let p = spec_advance(toks, r2.pos);
            let re = spec_parse_expression(toks, p, Precedence::Lowest);
            match re.node {
                None => SpecRes { node: None, pos: re.pos, errs: re.errs },
                Some(value) => {
                    let p2 = if tok_at(toks, re.pos + 1).type_ == TokenType::Semicolon {
                        spec_advance(toks, re.pos)
                    } else {
                        re.pos
                    };
                    SpecRes {
                        node: Some(
                            StmtV::Let {
                                token: let_tok,
                                name: IdentV { token: name_tok, value: name_tok.literal },
                                value,
                            },
                        ),
                        pos: p2,
                        errs: re.errs,
                    }
                },
            }
        }
    }
}

/// `return expression? ;?` — the value is absent exactly when a semicolon
/// follows `return` immediately.
#[verifier::opaque]
pub open spec fn spec_parse_ret_statement(toks: Seq<TokenV>, pos: int) -> SpecRes<StmtV>
    decreases toks.len() - pos, 6int,
{
    let ret_tok = tok_at(toks, pos);
    if tok_at(toks, pos + 1).type_ == TokenType::Semicolon {
        SpecRes {
            node: Some(StmtV::Return { token: ret_tok, value: None }),
            pos: spec_advance(toks, pos),
            errs: Seq::empty(),
        }
    } else {
        let p = spec_advance(toks, pos);
        let re = spec_parse_expression(toks, p, Precedence::Lowest);
        match re.node {
            None => SpecRes { node: None, pos: re.pos, errs: re.errs },
            Some(value) => {
                let p2 = if tok_at(toks, re.pos + 1).type_ == TokenType::Semicolon {
                    spec_advance(toks, re.pos)
                } else {
                    re.pos
                };
                SpecRes {
                    node: Some(StmtV::Return { token: ret_tok, value: Some(value) }),
                    pos: p2,
                    errs: re.errs,
                }
            },
        }
    }
}

/// A bare expression in statement position, with an optional trailing
/// semicolon.
#[verifier::opaque]
pub open spec fn spec_parse_expression_statement(toks: Seq<TokenV>, pos: int) -> SpecRes<StmtV>
    decreases toks.len() - pos, 6int,
{
    let tok = tok_at(toks, pos);
    let re = spec_parse_expression(toks, pos, Precedence::Lowest);
    match re.node {
        None => SpecRes { node: None, pos: re.pos, errs: re.errs },
        Some(expression) => {
            let p2 = if tok_at(toks, re.pos + 1).type_ == TokenType::Semicolon {
                spec_advance(toks, re.pos)
            } else {
                re.pos
            };
            SpecRes {
                node: Some(StmtV::Expr { token: tok, expression }),
                pos: p2,
                errs: re.errs,
            }
        },
    }
}

/// Precedence climbing: parse a prefix, then fold in infix operators while
/// the next token binds tighter than `minp`.
#[verifier::opaque]
pub open spec fn spec_parse_expression(toks: Seq<TokenV>, pos: int, minp: Precedence) -> SpecRes<
    ExprV,
>
    decreases toks.len() - pos, 4int,
{
    let rp = spec_parse_prefix(toks, pos);
    match rp.node {
        None => SpecRes { node: None, pos: rp.pos, errs: rp.errs },
        Some(left) => {
            let p1 = if pos <= rp.pos <= toks.len() {
                rp.pos
            } else {
                pos
            };
            let rl = spec_infix_loop(toks, p1, minp, left);
            SpecRes { node: rl.node, pos: rl.pos, errs: rp.errs + rl.errs }
        },
    }
}

/// The prefix rules, dispatched by the current token's kind. A token with
/// no prefix rule fails with a `NoPrefixParseRule` diagnostic; an `Illegal`
/// token fails with `IllegalCharacter`.
#[verifier::opaque]
pub open spec fn spec_parse_prefix(toks: Seq<TokenV>, pos: int) -> SpecRes<ExprV>
    decreases toks.len() - pos, 3int,
{
    let cur = tok_at(toks, pos);
    match cur.type_ {
        TokenType::Identifier => SpecRes {
            node: Some(ExprV::Ident { token: cur, value: cur.literal }),
            pos,
            errs: Seq::empty(),
        },
        TokenType::Integer => match spec_parse_i64(cur.literal) {
            Some(v) => SpecRes {
                node: Some(ExprV::Int { token: cur, value: v }),
                pos,
                errs: Seq::empty(),
            },
            None => SpecRes {
                node: None,
                pos,
                errs: seq![
                    ParseErrorV {
                        kind: ParseErrorKind::IntegerLiteralOverflow,
                        msg: spec_int_overflow_msg(cur.literal),
                    },
                ],
            },
        },
        TokenType::True => SpecRes {
            node: Some(ExprV::Bool { token: cur, value: true }),
            pos,
            errs: Seq::empty(),
        },
        TokenType::False => SpecRes {
            node: Some(ExprV::Bool { token: cur, value: false }),
            pos,
            errs: Seq::empty(),
        },
        TokenType::Bang => spec_parse_prefix_operator(toks, pos),
        TokenType::Minus => spec_parse_prefix_operator(toks, pos),
        TokenType::LParen => {
            let p = spec_advance(toks, pos);
            let re = spec_parse_expression(toks, p, Precedence::Lowest);
            match re.node {
                None => SpecRes { node: None, pos: re.pos, errs: re.errs },
                Some(inner) => {
                    let r2 = spec_expect_peek(toks, re.pos, TokenType::RParen);
                    if r2.ok {
                        SpecRes { node: Some(inner), pos: r2.pos, errs: re.errs }
                    } else {
                        SpecRes { node: None, pos: r2.pos, errs: re.errs + r2.errs }
                    }
                },
            }
        },
        TokenType::If => spec_parse_if_expression(toks, pos),
        TokenType::Function => spec_parse_function_literal(toks, pos),
        TokenType::Illegal => SpecRes {
            node: None,
            pos,
            errs: seq![
                ParseErrorV {
                    kind: ParseErrorKind::IllegalCharacter,
                    msg: spec_illegal_char_msg(cur.literal),
                },
            ],
        },
        _ => SpecRes {
            node: None,
            pos,
            errs: seq![
                ParseErrorV {
                    kind: ParseErrorKind::NoPrefixParseRule,
                    msg: spec_no_prefix_msg(cur.type_),
                },
            ],
        },
    }
}

/// `!x` or `-x`: the operand is parsed at `Prefix` strength.
#[verifier::opaque]
pub open spec fn spec_parse_prefix_operator(toks: Seq<TokenV>, pos: int) -> SpecRes<ExprV>
    decreases toks.len() - pos, 2int,
{
    if pos < 0 || pos >= toks.len() {
        SpecRes { node: None, pos, errs: Seq::empty() }
    } else {
        let cur = tok_at(toks, pos);
        let p = spec_advance(toks, pos);
        let re = spec_parse_expression(toks, p, Precedence::Prefix);
        match re.node {
            None => SpecRes { node: None, pos: re.pos, errs: re.errs },
            Some(right) => SpecRes {
                node: Some(
                    ExprV::Prefix { token: cur, operator: cur.literal, right: Box::new(right) },
                ),
                pos: re.pos,
                errs: re.errs,
            },
        }
    }
}

/// The Pratt loop: while the token after the current one is not a semicolon
/// and binds strictly tighter than `minp`, fold it into `left` — a call for
/// `(`, an infix operator otherwise. Equal strengths stop the loop, which
/// makes operator chains left-associative.
#[verifier::opaque]
pub open spec fn spec_infix_loop(
    toks: Seq<TokenV>,
    pos: int,
    minp: Precedence,
    left: ExprV,
) -> SpecRes<ExprV>
    decreases toks.len() - pos, 3int,
{
    let pk = tok_at(toks, pos + 1);
    if pk.type_ == TokenType::Semicolon || spec_precedence_of(pk.type_).spec_value()
        <= minp.spec_value() {
        SpecRes { node: Some(left), pos, errs: Seq::empty() }
    } else {
        if pk.type_ == TokenType::LParen {
            let opos = spec_advance(toks, pos);
            let ra = spec_parse_call_args(toks, opos);
            match ra.node {
                None => SpecRes { node: None, pos: ra.pos, errs: ra.errs },
                Some(args) => {
                    let new_left = ExprV::Call {
                        token: pk,
                        function: Box::new(left),
                        arguments: args,
                    };
                    let np = if pos < ra.pos <= toks.len() {
                        ra.pos
                    } else {
                        opos
                    };
                    let rl = spec_infix_loop(toks, np, minp, new_left);
                    SpecRes { node: rl.node, pos: rl.pos, errs: ra.errs + rl.errs }
                },
            }
        } else {
            let p2 = spec_advance(toks, spec_advance(toks, pos));
            let re = spec_parse_expression(toks, p2, spec_precedence_of(pk.type_));
            match re.node {
                None => SpecRes { node: None, pos: re.pos, errs: re.errs },
                Some(right) => {
                    let new_left = ExprV::Infix {
                        token: pk,
                        left: Box::new(left),
                        operator: pk.literal,
                        right: Box::new(right),
                    };
                    let np = if pos < re.pos <= toks.len() {
                        re.pos
                    } else {
                        p2
                    };
                    let rl = spec_infix_loop(toks, np, minp, new_left);
                    SpecRes { node: rl.node, pos: rl.pos, errs: re.errs + rl.errs }
                },
            }
        }
    }
}

/// `if (condition) { consequence }` with an optional `else { alternative }`.
#[verifier::opaque]
pub open spec fn spec_parse_if_expression(toks: Seq<TokenV>, pos: int) -> SpecRes<ExprV>
    decreases toks.len() - pos, 2int,
{
    let if_tok = tok_at(toks, pos);
    let r1 = spec_expect_peek(toks, pos, TokenType::LParen);
    if !r1.ok {
        SpecRes { node: None, pos: r1.pos, errs: r1.errs }
    } else {
        let p = spec_advance(toks, r1.pos);
        let rc = spec_parse_expression(toks, p, Precedence::Lowest);
        match rc.node {
            None => SpecRes { node: None, pos: rc.pos, errs: rc.errs },
            Some(condition) => {
                let cpos = if pos < rc.pos <= toks.len() {
                    rc.pos
                } else {
                    p
                };
                let r2 = spec_expect_peek(toks, cpos, TokenType::RParen);
                if !r2.ok {
                    SpecRes { node: None, pos: r2.pos, errs: rc.errs + r2.errs }
                } else {
                    let r3 = spec_expect_peek(toks, r2.pos, TokenType::LBrace);
                    if !r3.ok {
                        SpecRes { node: None, pos: r3.pos, errs: rc.errs + r3.errs }
                    } else {
                        let rb = spec_parse_block(toks, r3.pos);
                        let bpos = if pos < rb.pos <= toks.len() {
                            rb.pos
                        } else {
                            r3.pos
                        };
                        if tok_at(toks, bpos).type_ != TokenType::RBrace {
                            SpecRes {
                                node: None,
                                pos: bpos,
                                errs: rc.errs + rb.errs + seq![
                                    ParseErrorV {
                                        kind: ParseErrorKind::UnexpectedToken,
                                        msg: spec_peek_error_msg(
                                            TokenType::RBrace,
                                            tok_at(toks, bpos).type_,
                                        ),
                                    },
                                ],
                            }
                        } else {
                            if tok_at(toks, bpos + 1).type_ == TokenType::Else {
                                let pe = spec_advance(toks, bpos);
                                let r4 = spec_expect_peek(toks, pe, TokenType::LBrace);
                                if !r4.ok {
                                    SpecRes {
                                        node: None,
                                        pos: r4.pos,
                                        errs: rc.errs + rb.errs + r4.errs,
                                    }
                                } else {
                                    let ra = spec_parse_block(toks, r4.pos);
                                    let apos = if pos < ra.pos <= toks.len() {
                                        ra.pos
                                    } else {
                                        r4.pos
                                    };
                                    if tok_at(toks, apos).type_ != TokenType::RBrace {
                                        SpecRes {
                                            node: None,
                                            pos: apos,
                                            errs: rc.errs + rb.errs + ra.errs + seq![
                                                ParseErrorV {
                                                    kind: ParseErrorKind::UnexpectedToken,
                                                    msg: spec_peek_error_msg(
                                                        TokenType::RBrace,
                                                        tok_at(toks, apos).type_,
                                                    ),
                                                },
                                            ],
                                        }
                                    } else {
                                        SpecRes {
                                            node: Some(
                                                ExprV::If {
                                                    token: if_tok,
                                                    condition: Box::new(condition),
                                                    consequence: rb.block,
                                                    alternative: Some(ra.block),
                                                },
                                            ),
                                            pos: apos,
                                            errs: rc.errs + rb.errs + ra.errs,
                                        }
                                    }
                                }
                            } else {
                                SpecRes {
                                    node: Some(
                                        ExprV::If {
                                            token: if_tok,
                                            condition: Box::new(condition),
                                            consequence: rb.block,
                                            alternative: None,
                                        },
                                    ),
                                    pos: bpos,
                                    errs: rc.errs + rb.errs,
                                }
                            }
                        }
                    }
                }
            },
        }
    }
}

/// `fn (parameters) { body }`.
#[verifier::opaque]
pub open spec fn spec_parse_function_literal(toks: Seq<TokenV>, pos: int) -> SpecRes<ExprV>
    decreases toks.len() - pos, 2int,
{
    let fn_tok = tok_at(toks, pos);
    let r1 = spec_expect_peek(toks, pos, TokenType::LParen);
    if !r1.ok {
        SpecRes { node: None, pos: r1.pos, errs: r1.errs }
    } else {
        let rp = spec_parse_fn_params(toks, r1.pos);
        match rp.node {
            None => SpecRes { node: None, pos: rp.pos, errs: rp.errs },
            Some(params) => {
                let ppos = if pos < rp.pos <= toks.len() {
                    rp.pos
                } else {
                    r1.pos
                };
                let r2 = spec_expect_peek(toks, ppos, TokenType::LBrace);
                if !r2.ok {
                    SpecRes { node: None, pos: r2.pos, errs: rp.errs + r2.errs }
                } else {
                    let rb = spec_parse_block(toks, r2.pos);
                    let bpos = if pos < rb.pos <= toks.len() {
                        rb.pos
                    } else {
                        r2.pos
                    };
                    if tok_at(toks, bpos).type_ != TokenType::RBrace {
                        SpecRes {
                            node: None,
                            pos: bpos,
                            errs: rp.errs + rb.errs + seq![
                                ParseErrorV {
                                    kind: ParseErrorKind::UnexpectedToken,
                                    msg: spec_peek_error_msg(
                                        TokenType::RBrace,
                                        tok_at(toks, bpos).type_,
                                    ),
                                },
                            ],
                        }
                    } else {
                        SpecRes {
                            node: Some(
                                ExprV::Function {
                                    token: fn_tok,
                                    parameters: params,
                                    body: rb.block,
                                },
                            ),
                            pos: bpos,
                            errs: rp.errs + rb.errs,
                        }
                    }
                }
            },
        }
    }
}

/// The comma-separated (possibly empty) parameter list of a function
/// literal: each entry must be an `Identifier` token.
#[verifier::opaque]
pub open spec fn spec_parse_fn_params(toks: Seq<TokenV>, pos: int) -> SpecRes<Seq<IdentV>>
    decreases toks.len() - pos, 5int,
{
    if tok_at(toks, pos + 1).type_ == TokenType::RParen {
        SpecRes { node: Some(Seq::empty()), pos: spec_advance(toks, pos), errs: Seq::empty() }
    } else {
        let r1 = spec_expect_peek(toks, pos, TokenType::Identifier);
        if !r1.ok {
            SpecRes { node: None, pos: r1.pos, errs: r1.errs }
        } else {
            let c = tok_at(toks, r1.pos);
            spec_parse_fn_params_rest(toks, r1.pos, seq![IdentV { token: c, value: c.literal }])
        }
    }
}

#[verifier::opaque]
pub open spec fn spec_parse_fn_params_rest(toks: Seq<TokenV>, pos: int, acc: Seq<IdentV>) -> SpecRes<
    Seq<IdentV>,
>
    decreases toks.len() - pos, 4int,
{
    if tok_at(toks, pos + 1).type_ == TokenType::Comma {
        let p1 = spec_advance(toks, pos);
        let r1 = spec_expect_peek(toks, p1, TokenType::Identifier);
        if !r1.ok {
            SpecRes { node: None, pos: r1.pos, errs: r1.errs }
        } else {
            let c = tok_at(toks, r1.pos);
            spec_parse_fn_params_rest(toks, r1.pos, acc.push(IdentV { token: c, value: c.literal }))
        }
    } else {
        let r = spec_expect_peek(toks, pos, TokenType::RParen);
        if r.ok {
            SpecRes { node: Some(acc), pos: r.pos, errs: Seq::empty() }
        } else {
            SpecRes { node: None, pos: r.pos, errs: r.errs }
        }
    }
}

/// The comma-separated (possibly empty) argument list of a call, each
/// argument parsed at `Lowest` strength, closed by `)`.
#[verifier::opaque]
pub open spec fn spec_parse_call_args(toks: Seq<TokenV>, pos: int) -> SpecRes<Seq<ExprV>>
    decreases toks.len() - pos, 5int,
{
    if tok_at(toks, pos + 1).type_ == TokenType::RParen {
        SpecRes { node: Some(Seq::empty()), pos: spec_advance(toks, pos), errs: Seq::empty() }
    } else {
        let p = spec_advance(toks, pos);
        let re = spec_parse_expression(toks, p, Precedence::Lowest);
        match re.node {
            None => SpecRes { node: None, pos: re.pos, errs: re.errs },
            Some(first) => {
                let np = if pos < re.pos <= toks.len() {
                    re.pos
                } else {
                    p
                };
                let rr = spec_parse_call_args_rest(toks, np, seq![first]);
                SpecRes { node: rr.node, pos: rr.pos, errs: re.errs + rr.errs }
            },
        }
    }
}

#[verifier::opaque]
pub open spec fn spec_parse_call_args_rest(toks: Seq<TokenV>, pos: int, acc: Seq<ExprV>) -> SpecRes<
    Seq<ExprV>,
>
    decreases toks.len() - pos, 4int,
{
    if tok_at(toks, pos + 1).type_ == TokenType::Comma {
        let p2 = spec_advance(toks, spec_advance(toks, pos));
        let re = spec_parse_expression(toks, p2, Precedence::Lowest);
        match re.node {
            None => SpecRes { node: None, pos: re.pos, errs: re.errs },
            Some(e) => {
                let np = if pos < re.pos <= toks.len() {
                    re.pos
                } else {
                    p2
                };
                let rr = spec_parse_call_args_rest(toks, np, acc.push(e));
                SpecRes { node: rr.node, pos: rr.pos, errs: re.errs + rr.errs }
            },
        }
    } else {
        let r = spec_expect_peek(toks, pos, TokenType::RParen);
        if r.ok {
            SpecRes { node: Some(acc), pos: r.pos, errs: Seq::empty() }
        } else {
            SpecRes { node: None, pos: r.pos, errs: r.errs }
        }
    }
}

/// A brace-delimited block: statements until `}` or the end of the input,
/// with the same per-statement recovery as the whole program. The cursor
/// ends on the `}` (or at the end of the input when the brace is missing;
/// the caller checks for it).
#[verifier::opaque]
pub open spec fn spec_parse_block(toks: Seq<TokenV>, pos: int) -> SpecBlockRes
    decreases toks.len() - pos, 10int,
{
    let r = spec_parse_block_stmts(toks, spec_advance(toks, pos), Seq::empty(), Seq::empty());
    SpecBlockRes {
        block: BlockV { token: tok_at(toks, pos), statements: r.0 },
        pos: r.1,
        errs: r.2,
    }
}

proof fn lemma_skip_ws_all_whitespace(s: Seq<char>, i: int)
    requires
        0 <= i <= s.len(),
        forall|k: int| 0 <= k < s.len() ==> is_whitespace_char(#[trigger] s[k]),
    ensures
        crate::lexer::spec_skip_ws(s, i) == s.len(),
    decreases s.len() - i,
{
    if i < s.len() {
        lemma_skip_ws_all_whitespace(s, i + 1);
    }
}

/// An input consisting only of whitespace lexes to the bare `EndOfInput`
/// token, and parses to a program with zero statements and no diagnostics.
pub proof fn lemma_whitespace_only_parses_empty(s: Seq<char>)
    requires
        forall|k: int| 0 <= k < s.len() ==> is_whitespace_char(#[trigger] s[k]),
    ensures
        spec_tokenize(s, 0) == seq![TokenV { type_: TokenType::EndOfInput, literal: ""@ }],
        spec_parse_program(spec_tokenize(s, 0)).0 == Seq::<StmtV>::empty(),
        spec_parse_program(spec_tokenize(s, 0)).1 == Seq::<ParseErrorV>::empty(),
{
    lemma_skip_ws_all_whitespace(s, 0);
    let toks = spec_tokenize(s, 0);
    assert(toks == seq![TokenV { type_: TokenType::EndOfInput, literal: ""@ }]);
    reveal(spec_parse_program_loop);
    assert(tok_at(toks, 0).type_ == TokenType::EndOfInput);
}

// ------------------------- the parser -------------------------

/// Parser state: the tokens of one source text (drawn from the lexer up to
/// and including the first `EndOfInput`), a cursor with one token of
/// lookahead beyond it, and the diagnostics collected so far.
pub struct Parser {
    tokens: Vec<Token>,
    position: usize,
    errors: ParseErrors,
}

impl Parser {
    /// The token stream being parsed.
    pub closed spec fn toks(&self) -> Seq<TokenV> {
        self.tokens@.map_values(|t: Token| t@)
    }

    /// The cursor: the index of the current token.
    pub closed spec fn pos(&self) -> int {
        self.position as int
    }

    /// The diagnostics collected so far, in the order they were recorded.
    pub closed spec fn errs(&self) -> Seq<ParseErrorV> {
        self.errors@.map_values(|e: ParseError| e@)
    }

    /// The cursor never leaves the token stream.
    pub open spec fn wf(&self) -> bool {
        0 <= self.pos() <= self.toks().len()
    }

    /// Builds a parser by drawing every token of the lexer's input, up to
    /// and including the first `EndOfInput`.
    pub fn new(l: Lexer) -> (p: Parser)
        requires
            l.wf(),
        ensures
            p.wf(),
            p.pos() == 0,
            p.errs() == Seq::<ParseErrorV>::empty(),
            p.toks() == spec_tokenize(l.input_view(), l.pos()),
    {
        let mut lx = l;
        let ghost s = lx.input_view();
        let ghost i0 = lx.pos();
        let mut tokens: Vec<Token> = Vec::new();
        loop
            invariant_except_break
                spec_tokenize(s, i0) == tokens@.map_values(|t: Token| t@) + spec_tokenize(
                    s,
                    lx.pos(),
                ),
            invariant
                lx.wf(),
                lx.input_view() == s,
            ensures
                spec_tokenize(s, i0) == tokens@.map_values(|t: Token| t@),
            decreases s.len() - lx.pos(),
        {
            let ghost p_old = lx.pos();
            let ghost tokens_old = tokens@;
            let t = lx.next_token();
            proof {
                lemma_next_token_progress(s, p_old);
            }
            let is_eof = t.type_ == TokenType::EndOfInput;
            tokens.push(t);
            proof {
                assert(tokens@.map_values(|x: Token| x@) =~= tokens_old.map_values(
                    |x: Token| x@,
                ).push(t@));
                if is_eof {
                    assert(spec_tokenize(s, p_old) == seq![t@]);
                    assert(tokens_old.map_values(|x: Token| x@) + seq![t@] =~= tokens@.map_values(
                        |x: Token| x@,
                    ));
                } else {
                    assert(spec_tokenize(s, p_old) == seq![t@] + spec_tokenize(s, lx.pos()));
                    assert(tokens_old.map_values(|x: Token| x@) + (seq![t@] + spec_tokenize(
                        s,
                        lx.pos(),
                    )) =~= tokens@.map_values(|x: Token| x@) + spec_tokenize(s, lx.pos()));
                }
            }
            if is_eof {
                break ;
            }
        }
        let p = Parser { tokens, position: 0, errors: Vec::new() };
        proof {
            assert(p.errs() =~= Seq::<ParseErrorV>::empty());
            lemma_spec_tokenize_wf(s, i0);
        }
        p
    }

    /// The current token (the `EndOfInput` padding once past the end).
    fn cur_token(&self) -> (t: Token)
        ensures
            t@ == tok_at(self.toks(), self.pos()),
    {
        if self.position < self.tokens.len() {
            self.tokens[self.position].clone()
        } else {
            Token::new(TokenType::EndOfInput, "")
        }
    }

    /// The token one past the current one.
    fn peek_token(&self) -> (t: Token)
        ensures
            t@ == tok_at(self.toks(), self.pos() + 1),
    {
        if self.position < self.tokens.len() && self.position + 1 < self.tokens.len() {
            self.tokens[self.position + 1].clone()
        } else {
            Token::new(TokenType::EndOfInput, "")
        }
    }

    /// Tests the current token's kind.
    pub fn cur_token_is(&self, t: TokenType) -> (b: bool)
        ensures
            b == (tok_at(self.toks(), self.pos()).type_ == t),
    {
        let cur = self.cur_token();
        cur.type_ == t
    }

    /// Tests the next token's kind.
    pub fn peek_token_is(&self, t: TokenType) -> (b: bool)
        ensures
            b == (tok_at(self.toks(), self.pos() + 1).type_ == t),
    {
        let pk = self.peek_token();
        pk.type_ == t
    }

    /// Steps the cursor one token forward, stopping at the end.
    fn next_token(&mut self)
        requires
            old(self).wf(),
        ensures
            final(self).wf(),
            final(self).toks() == old(self).toks(),
            final(self).errs() == old(self).errs(),
            final(self).pos() == spec_advance(old(self).toks(), old(self).pos()),
    {
        if self.position < self.tokens.len() {
            self.position = self.position + 1;
        }
    }

    /// Records the diagnostic for a failed `expect_peek`: which kind was
    /// required and which kind stood there instead.
    fn peek_errors(&mut self, t: TokenType)
        requires
            old(self).wf(),
        ensures
            final(self).wf(),
            final(self).toks() == old(self).toks(),
            final(self).pos() == old(self).pos(),
            final(self).errs() == old(self).errs() + seq![
                ParseErrorV {
                    kind: ParseErrorKind::UnexpectedToken,
                    msg: spec_peek_error_msg(t, tok_at(old(self).toks(), old(self).pos() + 1).type_),
                },
            ],
    {
        let pk = self.peek_token();
        let mut msg = String::from_str("expected next token to be ");
        let exp_sym = t.symbol();
        msg.append(exp_sym.as_str());
        msg.append(" , got ");
        let got_sym = pk.type_.symbol();
        msg.append(got_sym.as_str());
        msg.append(" instead");
        let e = ParseError::new(ParseErrorKind::UnexpectedToken, msg);
        let ghost errors_old = self.errors@;
        self.errors.push(e);
        proof {
            assert(self.errors@.map_values(|x: ParseError| x@) =~= errors_old.map_values(
                |x: ParseError| x@,
            ).push(e@));
        }
    }

    /// If the next token has the required kind, steps onto it and answers
    /// `true`; otherwise records a diagnostic and answers `false`, leaving
    /// the cursor in place.
    pub fn expect_peek(&mut self, t: TokenType) -> (ok: bool)
        requires
            old(self).wf(),
        ensures
            final(self).wf(),
            final(self).toks() == old(self).toks(),
            ({
                let r = spec_expect_peek(old(self).toks(), old(self).pos(), t);
                &&& ok == r.ok
                &&& final(self).pos() == r.pos
                &&& final(self).errs() == old(self).errs() + r.errs
            }),
    {
        let pk = self.peek_token();
        if pk.type_ == t {
            self.next_token();
            proof {
                assert(self.errs() =~= old(self).errs() + Seq::<ParseErrorV>::empty());
            }
            true
        } else {
            self.peek_errors(t);
            false
        }
    }

    /// The diagnostics collected so far.
    pub fn errors(&self) -> (e: &ParseErrors)
        ensures
            e@.map_values(|x: ParseError| x@) == self.errs(),
    {
        &self.errors
    }
}

#[verifier::opaque]
pub open spec fn spec_parse_block_stmts(
    toks: Seq<TokenV>,
    pos: int,
    acc: Seq<StmtV>,
    acc_errs: Seq<ParseErrorV>,
) -> (Seq<StmtV>, int, Seq<ParseErrorV>)
    decreases toks.len() - pos, 9int,
{
    if pos < 0 || pos >= toks.len() || tok_at(toks, pos).type_ == TokenType::RBrace || tok_at(
        toks,
        pos,
    ).type_ == TokenType::EndOfInput {
        (acc, pos, acc_errs)
    } else {
        let r = spec_parse_statement(toks, pos);
        let p1 = if pos <= r.pos <= toks.len() {
            r.pos
        } else {
            pos
        };
        let p2 = spec_advance(toks, p1);
        let acc2 = match r.node {
            Some(s) => acc.push(s),
            None => acc,
        };
        spec_parse_block_stmts(toks, p2, acc2, acc_errs + r.errs)
    }
}

impl Parser {
    /// Records a diagnostic at the current position.
    fn record_error(&mut self, kind: ParseErrorKind, msg: String)
        requires
            old(self).wf(),
        ensures
            final(self).wf(),
            final(self).toks() == old(self).toks(),
            final(self).pos() == old(self).pos(),
            final(self).errs() == old(self).errs() + seq![ParseErrorV { kind, msg: msg@ }],
    {
        let ghost errors_old = self.errors@;
        let e = ParseError::new(kind, msg);
        self.errors.push(e);
        proof {
            assert(self.errors@.map_values(|x: ParseError| x@) =~= errors_old.map_values(
                |x: ParseError| x@,
            ).push(e@));
        }
    }

    /// Records the diagnostic for a required closing token that is not the
    /// current token: which kind was required and which kind stands there.
    fn cur_errors(&mut self, t: TokenType)
        requires
            old(self).wf(),
        ensures
            final(self).wf(),
            final(self).toks() == old(self).toks(),
            final(self).pos() == old(self).pos(),
            final(self).errs() == old(self).errs() + seq![
                ParseErrorV {
                    kind: ParseErrorKind::UnexpectedToken,
                    msg: spec_peek_error_msg(t, tok_at(old(self).toks(), old(self).pos()).type_),
                },
            ],
    {
        let cur = self.cur_token();
        let mut msg = String::from_str("expected next token to be ");
        let exp_sym = t.symbol();
        msg.append(exp_sym.as_str());
        msg.append(" , got ");
        let got_sym = cur.type_.symbol();
        msg.append(got_sym.as_str());
        msg.append(" instead");
        self.record_error(ParseErrorKind::UnexpectedToken, msg);
    }

    /// Parses every statement until `EndOfInput`, appending each one that
    /// parses and always stepping forward after a statement — success or
    /// failure — so that multiple independent diagnostics can surface from
    /// one pass.
    #[verifier::rlimit(100)]
    #[verifier::spinoff_prover]
    pub fn parse_program(&mut self) -> (prog: Program)
        requires
            old(self).wf(),
        ensures
            final(self).wf(),
            final(self).toks() == old(self).toks(),
            old(self).pos() <= final(self).pos() <= old(self).toks().len(),
            prog.view() == spec_parse_program_from(old(self).toks(), old(self).pos()).0,
            final(self).errs() == old(self).errs() + spec_parse_program_from(
                old(self).toks(),
                old(self).pos(),
            ).1,
    {
        proof {
            reveal(spec_parse_program_loop);
        }
        let ghost toks = self.toks();
        let ghost pos0 = self.pos();
        let ghost errs0 = self.errs();
        let mut statements: Vec<Statement> = Vec::new();
        let ghost mut delta: Seq<ParseErrorV> = Seq::empty();
        proof {
            assert(errs0 + delta =~= errs0);
            assert(view_stmt_seq(statements@) =~= Seq::<StmtV>::empty());
        }
        loop
            invariant
                self.wf(),
                toks == old(self).toks(),
                pos0 == old(self).pos(),
                errs0 == old(self).errs(),
                self.toks() == toks,
                pos0 <= self.pos() <= toks.len(),
                self.errs() == errs0 + delta,
                spec_parse_program_loop(toks, pos0, Seq::empty(), Seq::empty())
                    == spec_parse_program_loop(toks, self.pos(), view_stmt_seq(statements@), delta),
            ensures
                self.wf(),
                self.toks() == toks,
                pos0 <= self.pos() <= toks.len(),
                self.errs() == errs0 + delta,
                spec_parse_program_loop(toks, pos0, Seq::empty(), Seq::empty())
                    == spec_parse_program_loop(toks, self.pos(), view_stmt_seq(statements@), delta),
                tok_at(toks, self.pos()).type_ == TokenType::EndOfInput,
            decreases toks.len() - self.pos(),
        {
            if self.cur_token_is(TokenType::EndOfInput) {
                break ;
            }
            proof {
                reveal(spec_parse_program_loop);
            }
            let ghost p_before = self.pos();
            let ghost stmts_before = statements@;
            let ghost delta_before = delta;
            let ghost sr = spec_parse_statement(toks, p_before);
            let stmt_opt = self.parse_statement();
            match stmt_opt {
                Some(s) => {
                    proof {
                        crate::ast::lemma_view_stmt_seq_push(stmts_before, s);
                    }
                    statements.push(s);
                },
                None => {},
            }
            proof {
                delta = delta + sr.errs;
                assert(self.errs() =~= errs0 + delta);
            }
            self.next_token();
        }
        let prog = Program { statements };
        proof {
            assert(final(self).errs() =~= old(self).errs() + spec_parse_program_from(
                toks,
                pos0,
            ).1);
        }
        prog
    }

    /// Parses one statement, dispatched by the current token's kind.
    #[verifier::spinoff_prover]
    #[verifier::rlimit(100)]
    pub fn parse_statement(&mut self) -> (r: Option<Statement>)
        requires
            old(self).wf(),
        ensures
            final(self).wf(),
            final(self).toks() == old(self).toks(),
            old(self).pos() <= final(self).pos() <= old(self).toks().len(),
            ({
                let sr = spec_parse_statement(old(self).toks(), old(self).pos());
                &&& final(self).pos() == sr.pos
                &&& final(self).errs() == old(self).errs() + sr.errs
                &&& view_opt_stmt(r) == sr.node
            }),
        decreases self.toks().len() - self.pos(), 8int,
    {
        let cur = self.cur_token();
        let r = match cur.type_ {
            TokenType::Let => self.parse_let_statement(),
            TokenType::Return => self.parse_ret_statement(),
            _ => self.parse_expression_statement(),
        };
        proof {
            reveal(spec_parse_statement);
            let sr = spec_parse_statement(old(self).toks(), old(self).pos());
            assert(self.pos() == sr.pos);
            assert(self.errs() =~= old(self).errs() + sr.errs);
            assert(view_opt_stmt(r) == sr.node);
        }
        r
    }

    /// `let IDENT = expression ;?` — a missing name or `=` abandons the
    /// statement, leaving a diagnostic.
    #[verifier::spinoff_prover]
    #[verifier::rlimit(100)]
    fn parse_let_statement(&mut self) -> (r: Option<Statement>)
        requires
            old(self).wf(),
        ensures
            final(self).wf(),
            final(self).toks() == old(self).toks(),
            old(self).pos() <= final(self).pos() <= old(self).toks().len(),
            ({
                let sr = spec_parse_let_statement(old(self).toks(), old(self).pos());
                &&& final(self).pos() == sr.pos
                &&& final(self).errs() == old(self).errs() + sr.errs
                &&& view_opt_stmt(r) == sr.node
            }),
        decreases self.toks().len() - self.pos(), 6int,
    {
        let let_tok = self.cur_token();
        if !self.expect_peek(TokenType::Identifier) {
            proof {
                reveal(spec_parse_let_statement);
                let sr = spec_parse_let_statement(old(self).toks(), old(self).pos());
                assert(self.pos() == sr.pos);
                assert(self.errs() =~= old(self).errs() + sr.errs);
                assert(sr.node is None);
            }
            return None;
        }
        let name_tok = self.cur_token();
        let name_value = name_tok.literal.clone();
        let name = Identifier { token: name_tok, value: name_value };
        if !self.expect_peek(TokenType::Assign) {
            proof {
                reveal(spec_parse_let_statement);
                let sr = spec_parse_let_statement(old(self).toks(), old(self).pos());
                assert(self.pos() == sr.pos);
                assert(self.errs() =~= old(self).errs() + sr.errs);
                assert(sr.node is None);
            }
            return None;
        }
        self.next_token();
        let value_opt = self.parse_expression(Precedence::Lowest);
        match value_opt {
            None => {
                proof {
                    reveal(spec_parse_let_statement);
                    let sr = spec_parse_let_statement(old(self).toks(), old(self).pos());
                    assert(self.pos() == sr.pos);
                    assert(self.errs() =~= old(self).errs() + sr.errs);
                    assert(sr.node is None);
                }
                None
            },
            Some(value) => {
                if self.peek_token_is(TokenType::Semicolon) {
                    self.next_token();
                }
                let st = Statement::Let(LetStatement { token: let_tok, name, value });
                proof {
                    reveal(spec_parse_let_statement);
                    let sr = spec_parse_let_statement(old(self).toks(), old(self).pos());
                    assert(self.pos() == sr.pos);
                    assert(self.errs() =~= old(self).errs() + sr.errs);
                    assert(sr.node == Some(st.view()));
                }
                Some(st)
            },
        }
    }

    /// `return expression? ;?` — the value is absent exactly when a
    /// semicolon follows `return` immediately.
    #[verifier::rlimit(50)]
    #[verifier::spinoff_prover]
    fn parse_ret_statement(&mut self) -> (r: Option<Statement>)
        requires
            old(self).wf(),
        ensures
            final(self).wf(),
            final(self).toks() == old(self).toks(),
            old(self).pos() <= final(self).pos() <= old(self).toks().len(),
            ({
                let sr = spec_parse_ret_statement(old(self).toks(), old(self).pos());
                &&& final(self).pos() == sr.pos
                &&& final(self).errs() == old(self).errs() + sr.errs
                &&& view_opt_stmt(r) == sr.node
            }),
        decreases self.toks().len() - self.pos(), 6int,
    {
        proof {
            reveal(spec_parse_ret_statement);
        }
        let ret_tok = self.cur_token();
        if self.peek_token_is(TokenType::Semicolon) {
            self.next_token();
            proof {
                assert(self.errs() =~= old(self).errs() + Seq::<ParseErrorV>::empty());
            }
            return Some(Statement::Return(ReturnStatements { token: ret_tok, value: None }));
        }
        self.next_token();
        let value_opt = self.parse_expression(Precedence::Lowest);
        match value_opt {
            None => None,
            Some(value) => {
                if self.peek_token_is(TokenType::Semicolon) {
                    self.next_token();
                }
                Some(Statement::Return(ReturnStatements { token: ret_tok, value: Some(value) }))
            },
        }
    }

    /// A bare expression in statement position, with an optional trailing
    /// semicolon.
    #[verifier::spinoff_prover]
    #[verifier::rlimit(100)]
    pub fn parse_expression_statement(&mut self) -> (r: Option<Statement>)
        requires
            old(self).wf(),
        ensures
            final(self).wf(),
            final(self).toks() == old(self).toks(),
            old(self).pos() <= final(self).pos() <= old(self).toks().len(),
            ({
                let sr = spec_parse_expression_statement(old(self).toks(), old(self).pos());
                &&& final(self).pos() == sr.pos
                &&& final(self).errs() == old(self).errs() + sr.errs
                &&& view_opt_stmt(r) == sr.node
            }),
        decreases self.toks().len() - self.pos(), 6int,
    {
        let tok = self.cur_token();
        let e_opt = self.parse_expression(Precedence::Lowest);
        match e_opt {
            None => {
                proof {
                    reveal(spec_parse_expression_statement);
                    let sr = spec_parse_expression_statement(old(self).toks(), old(self).pos());
                    assert(self.pos() == sr.pos);
                    assert(self.errs() =~= old(self).errs() + sr.errs);
                    assert(sr.node is None);
                }
                None
            },
            Some(expression) => {
                if self.peek_token_is(TokenType::Semicolon) {
                    self.next_token();
                }
                let st = Statement::Expr(ExpressionStatement { token: tok, expression });
                proof {
                    reveal(spec_parse_expression_statement);
                    let sr = spec_parse_expression_statement(old(self).toks(), old(self).pos());
                    assert(self.pos() == sr.pos);
                    assert(self.errs() =~= old(self).errs() + sr.errs);
                    assert(sr.node == Some(st.view()));
                }
                Some(st)
            },
        }
    }

    /// Precedence climbing: parse a prefix, then fold in infix operators
    /// while the next token binds tighter than `minp`.
    #[verifier::spinoff_prover]
    #[verifier::rlimit(100)]
    pub fn parse_expression(&mut self, minp: Precedence) -> (r: Option<Expression>)
        requires
            old(self).wf(),
        ensures
            final(self).wf(),
            final(self).toks() == old(self).toks(),
            old(self).pos() <= final(self).pos() <= old(self).toks().len(),
            ({
                let sr = spec_parse_expression(old(self).toks(), old(self).pos(), minp);
                &&& final(self).pos() == sr.pos
                &&& final(self).errs() == old(self).errs() + sr.errs
                &&& view_opt_expr(r) == sr.node
            }),
        decreases self.toks().len() - self.pos(), 4int,
    {
        let left_opt = self.parse_prefix();
        match left_opt {
            None => {
                proof {
                    reveal(spec_parse_expression);
                    let sr = spec_parse_expression(old(self).toks(), old(self).pos(), minp);
                    assert(self.pos() == sr.pos);
                    assert(self.errs() =~= old(self).errs() + sr.errs);
                    assert(sr.node is None);
                }
                None
            },
            Some(left) => {
                let ghost rp = spec_parse_prefix(old(self).toks(), old(self).pos());
                let ghost lv = left.view();
                let res = self.parse_infix_loop(minp, left);
                proof {
                    reveal(spec_parse_expression);
                    let sr = spec_parse_expression(old(self).toks(), old(self).pos(), minp);
                    let rl = spec_infix_loop(old(self).toks(), rp.pos, minp, lv);
                    assert(self.pos() == sr.pos);
                    assert(self.errs() =~= old(self).errs() + (rp.errs + rl.errs));
                    assert(view_opt_expr(res) == sr.node);
                }
                res
            },
        }
    }

    /// The prefix rules, dispatched by the current token's kind.
    #[verifier::spinoff_prover]
    #[verifier::rlimit(100)]
    fn parse_prefix(&mut self) -> (r: Option<Expression>)
        requires
            old(self).wf(),
        ensures
            final(self).wf(),
            final(self).toks() == old(self).toks(),
            old(self).pos() <= final(self).pos() <= old(self).toks().len(),
            ({
                let sr = spec_parse_prefix(old(self).toks(), old(self).pos());
                &&& final(self).pos() == sr.pos
                &&& final(self).errs() == old(self).errs() + sr.errs
                &&& view_opt_expr(r) == sr.node
            }),
        decreases self.toks().len() - self.pos(), 3int,
    {
        let cur = self.cur_token();
        match cur.type_ {
            TokenType::Identifier => {
                let value = cur.literal.clone();
                let e = Expression::Ident(Identifier { token: cur, value });
                proof {
                    reveal(spec_parse_prefix);
                    let sr = spec_parse_prefix(old(self).toks(), old(self).pos());
                    assert(self.pos() == sr.pos);
                    assert(self.errs() =~= old(self).errs() + sr.errs);
                    assert(sr.node == Some(e.view()));
                }
                Some(e)
            },
            TokenType::Integer => {
                match parse_int(cur.literal.as_str()) {
                    Some(v) => {
                        let e = Expression::Int(IntegerLiteral { token: cur, value: v });
                        proof {
                            reveal(spec_parse_prefix);
                            let sr = spec_parse_prefix(old(self).toks(), old(self).pos());
                            assert(self.pos() == sr.pos);
                            assert(self.errs() =~= old(self).errs() + sr.errs);
                            assert(sr.node == Some(e.view()));
                        }
                        Some(e)
                    },
                    None => {
                        let mut msg = String::from_str("could not parse ");
                        msg.append(cur.literal.as_str());
                        msg.append(" as integer");
                        self.record_error(ParseErrorKind::IntegerLiteralOverflow, msg);
                        proof {
                            reveal(spec_parse_prefix);
                            let sr = spec_parse_prefix(old(self).toks(), old(self).pos());
                            assert(self.pos() == sr.pos);
                            assert(self.errs() =~= old(self).errs() + sr.errs);
                            assert(sr.node is None);
                        }
                        None
                    },
                }
            },
            TokenType::True => {
                let e = Expression::Bool(BooleanLiteral { token: cur, value: true });
                proof {
                    reveal(spec_parse_prefix);
                    let sr = spec_parse_prefix(old(self).toks(), old(self).pos());
                    assert(self.pos() == sr.pos);
                    assert(self.errs() =~= old(self).errs() + sr.errs);
                    assert(sr.node == Some(e.view()));
                }
                Some(e)
            },
            TokenType::False => {
                let e = Expression::Bool(BooleanLiteral { token: cur, value: false });
                proof {
                    reveal(spec_parse_prefix);
                    let sr = spec_parse_prefix(old(self).toks(), old(self).pos());
                    assert(self.pos() == sr.pos);
                    assert(self.errs() =~= old(self).errs() + sr.errs);
                    assert(sr.node == Some(e.view()));
                }
                Some(e)
            },
            TokenType::Bang => {
                let r = self.parse_prefix_operator();
                proof {
                    reveal(spec_parse_prefix);
                    let sr = spec_parse_prefix(old(self).toks(), old(self).pos());
                    assert(self.pos() == sr.pos);
                    assert(self.errs() =~= old(self).errs() + sr.errs);
                    assert(view_opt_expr(r) == sr.node);
                }
                r
            },
            TokenType::Minus => {
                let r = self.parse_prefix_operator();
                proof {
                    reveal(spec_parse_prefix);
                    let sr = spec_parse_prefix(old(self).toks(), old(self).pos());
                    assert(self.pos() == sr.pos);
                    assert(self.errs() =~= old(self).errs() + sr.errs);
                    assert(view_opt_expr(r) == sr.node);
                }
                r
            },
            TokenType::LParen => {
                self.next_token();
                let ghost p = self.pos();
                let inner_opt = self.parse_expression(Precedence::Lowest);
                let ghost re = spec_parse_expression(old(self).toks(), p, Precedence::Lowest);
                match inner_opt {
                    None => {
                        proof {
                            reveal(spec_parse_prefix);
                            let sr = spec_parse_prefix(old(self).toks(), old(self).pos());
                            assert(self.pos() == sr.pos);
                            assert(self.errs() =~= old(self).errs() + sr.errs);
                            assert(sr.node is None);
                        }
                        None
                    },
                    Some(inner) => {
                        if self.expect_peek(TokenType::RParen) {
                            proof {
                                reveal(spec_parse_prefix);
                                let sr = spec_parse_prefix(old(self).toks(), old(self).pos());
                                assert(self.pos() == sr.pos);
                                assert(self.errs() =~= old(self).errs() + sr.errs);
                                assert(sr.node == Some(inner.view()));
                            }
                            Some(inner)
                        } else {
                            proof {
                                reveal(spec_parse_prefix);
                                let sr = spec_parse_prefix(old(self).toks(), old(self).pos());
                                assert(self.pos() == sr.pos);
                                assert(self.errs() =~= old(self).errs() + sr.errs);
                                assert(sr.node is None);
                            }
                            None
                        }
                    },
                }
            },
            TokenType::If => {
                let r = self.parse_if_expression();
                proof {
                    reveal(spec_parse_prefix);
                    let sr = spec_parse_prefix(old(self).toks(), old(self).pos());
                    assert(self.pos() == sr.pos);
                    assert(self.errs() =~= old(self).errs() + sr.errs);
                    assert(view_opt_expr(r) == sr.node);
                }
                r
            },
            TokenType::Function => {
                let r = self.parse_function_literal();
                proof {
                    reveal(spec_parse_prefix);
                    let sr = spec_parse_prefix(old(self).toks(), old(self).pos());
                    assert(self.pos() == sr.pos);
                    assert(self.errs() =~= old(self).errs() + sr.errs);
                    assert(view_opt_expr(r) == sr.node);
                }
                r
            },
            TokenType::Illegal => {
                let mut msg = String::from_str("illegal character ");
                msg.append(cur.literal.as_str());
                self.record_error(ParseErrorKind::IllegalCharacter, msg);
                proof {
                    reveal(spec_parse_prefix);
                    let sr = spec_parse_prefix(old(self).toks(), old(self).pos());
                    assert(self.pos() == sr.pos);
                    assert(self.errs() =~= old(self).errs() + sr.errs);
                    assert(sr.node is None);
                }
                None
            },
            _ => {
                let mut msg = String::from_str("no prefix parse rule for ");
                let sym = cur.type_.symbol();
                msg.append(sym.as_str());
                msg.append(" found");
                self.record_error(ParseErrorKind::NoPrefixParseRule, msg);
                proof {
                    reveal(spec_parse_prefix);
                    let sr = spec_parse_prefix(old(self).toks(), old(self).pos());
                    assert(self.pos() == sr.pos);
                    assert(self.errs() =~= old(self).errs() + sr.errs);
                    assert(sr.node is None);
                }
                None
            },
        }
    }

    /// `!x` or `-x`: the operand is parsed at `Prefix` strength.
    #[verifier::spinoff_prover]
    #[verifier::rlimit(100)]
    fn parse_prefix_operator(&mut self) -> (r: Option<Expression>)
        requires
            old(self).wf(),
            old(self).pos() < old(self).toks().len(),
        ensures
            final(self).wf(),
            final(self).toks() == old(self).toks(),
            old(self).pos() <= final(self).pos() <= old(self).toks().len(),
            ({
                let sr = spec_parse_prefix_operator(old(self).toks(), old(self).pos());
                &&& final(self).pos() == sr.pos
                &&& final(self).errs() == old(self).errs() + sr.errs
                &&& view_opt_expr(r) == sr.node
            }),
        decreases self.toks().len() - self.pos(), 2int,
    {
        let cur = self.cur_token();
        let operator = cur.literal.clone();
        self.next_token();
        let right_opt = self.parse_expression(Precedence::Prefix);
        match right_opt {
            None => {
                proof {
                    reveal(spec_parse_prefix_operator);
                    let sr = spec_parse_prefix_operator(old(self).toks(), old(self).pos());
                    assert(self.pos() == sr.pos);
                    assert(self.errs() =~= old(self).errs() + sr.errs);
                    assert(sr.node is None);
                }
                None
            },
            Some(right) => {
                let e = Expression::Prefix(
                    PrefixExpression { token: cur, operator, right: Box::new(right) },
                );
                proof {
                    reveal(spec_parse_prefix_operator);
                    let sr = spec_parse_prefix_operator(old(self).toks(), old(self).pos());
                    assert(self.pos() == sr.pos);
                    assert(self.errs() =~= old(self).errs() + sr.errs);
                    assert(sr.node == Some(e.view()));
                }
                Some(e)
            },
        }
    }

    /// The Pratt loop: while the next token is not a semicolon and binds
    /// strictly tighter than `minp`, fold it into `left` — a call for `(`,
    /// an infix operator otherwise.
    #[verifier::spinoff_prover]
    #[verifier::rlimit(100)]
    fn parse_infix_loop(&mut self, minp: Precedence, left: Expression) -> (r: Option<Expression>)
        requires
            old(self).wf(),
        ensures
            final(self).wf(),
            final(self).toks() == old(self).toks(),
            old(self).pos() <= final(self).pos() <= old(self).toks().len(),
            ({
                let sr = spec_infix_loop(old(self).toks(), old(self).pos(), minp, left.view());
                &&& final(self).pos() == sr.pos
                &&& final(self).errs() == old(self).errs() + sr.errs
                &&& view_opt_expr(r) == sr.node
            }),
        decreases self.toks().len() - self.pos(), 3int,
    {
        let ghost lv = left.view();
        let pk = self.peek_token();
        let pk_prec = precedence_of(pk.type_);
        if pk.type_ == TokenType::Semicolon || pk_prec.value() <= minp.value() {
            proof {
                reveal(spec_infix_loop);
                let sr = spec_infix_loop(old(self).toks(), old(self).pos(), minp, lv);
                assert(self.pos() == sr.pos);
                assert(self.errs() =~= old(self).errs() + sr.errs);
                assert(sr.node == Some(lv));
            }
            return Some(left);
        }
        if pk.type_ == TokenType::LParen {
            self.next_token();
            let ghost opos = self.pos();
            let args_opt = self.parse_call_args();
            let ghost ra = spec_parse_call_args(old(self).toks(), opos);
            match args_opt {
                None => {
                    proof {
                        reveal(spec_infix_loop);
                        let sr = spec_infix_loop(old(self).toks(), old(self).pos(), minp, lv);
                        assert(self.pos() == sr.pos);
                        assert(self.errs() =~= old(self).errs() + sr.errs);
                        assert(sr.node is None);
                    }
                    None
                },
                Some(args) => {
                    let new_left = Expression::Call(
                        CallExpression { token: pk, function: Box::new(left), arguments: args },
                    );
                    let ghost nlv = new_left.view();
                    let res = self.parse_infix_loop(minp, new_left);
                    proof {
                        reveal(spec_infix_loop);
                        let sr = spec_infix_loop(old(self).toks(), old(self).pos(), minp, lv);
                        let rl = spec_infix_loop(old(self).toks(), ra.pos, minp, nlv);
                        assert(self.pos() == sr.pos);
                        assert(self.errs() =~= old(self).errs() + (ra.errs + rl.errs));
                        assert(view_opt_expr(res) == sr.node);
                    }
                    res
                },
            }
        } else {
            self.next_token();
            self.next_token();
            let ghost p2 = self.pos();
            let right_opt = self.parse_expression(pk_prec);
            let ghost re = spec_parse_expression(old(self).toks(), p2, pk_prec);
            match right_opt {
                None => {
                    proof {
                        reveal(spec_infix_loop);
                        let sr = spec_infix_loop(old(self).toks(), old(self).pos(), minp, lv);
                        assert(self.pos() == sr.pos);
                        assert(self.errs() =~= old(self).errs() + sr.errs);
                        assert(sr.node is None);
                    }
                    None
                },
                Some(right) => {
                    let operator = pk.literal.clone();
                    let new_left = Expression::Infix(
                        InfixExpression {
                            token: pk,
                            left: Box::new(left),
                            operator,
                            right: Box::new(right),
                        },
                    );
                    let ghost nlv = new_left.view();
                    let res = self.parse_infix_loop(minp, new_left);
                    proof {
                        reveal(spec_infix_loop);
                        let sr = spec_infix_loop(old(self).toks(), old(self).pos(), minp, lv);
                        let rl = spec_infix_loop(old(self).toks(), re.pos, minp, nlv);
                        assert(self.pos() == sr.pos);
                        assert(self.errs() =~= old(self).errs() + (re.errs + rl.errs));
                        assert(view_opt_expr(res) == sr.node);
                    }
                    res
                },
            }
        }
    }

    /// `if (condition) { consequence }` with an optional
    /// `else { alternative }`.
    #[verifier::rlimit(100)]
    #[verifier::spinoff_prover]
    fn parse_if_expression(&mut self) -> (r: Option<Expression>)
        requires
            old(self).wf(),
        ensures
            final(self).wf(),
            final(self).toks() == old(self).toks(),
            old(self).pos() <= final(self).pos() <= old(self).toks().len(),
            ({
                let sr = spec_parse_if_expression(old(self).toks(), old(self).pos());
                &&& final(self).pos() == sr.pos
                &&& final(self).errs() == old(self).errs() + sr.errs
                &&& view_opt_expr(r) == sr.node
            }),
        decreases self.toks().len() - self.pos(), 2int,
    {
        proof {
            reveal(spec_parse_if_expression);
        }
        let if_tok = self.cur_token();
        if !self.expect_peek(TokenType::LParen) {
            return None;
        }
        self.next_token();
        let ghost p = self.pos();
        let cond_opt = self.parse_expression(Precedence::Lowest);
        let ghost rc = spec_parse_expression(old(self).toks(), p, Precedence::Lowest);
        match cond_opt {
            None => {
                proof {
                    let sr = spec_parse_if_expression(old(self).toks(), old(self).pos());
                    assert(self.errs() =~= old(self).errs() + sr.errs);
                }
                None
            },
            Some(condition) => {
                if !self.expect_peek(TokenType::RParen) {
                    proof {
                        let sr = spec_parse_if_expression(old(self).toks(), old(self).pos());
                        assert(self.errs() =~= old(self).errs() + sr.errs);
                    }
                    return None;
                }
                if !self.expect_peek(TokenType::LBrace) {
                    proof {
                        let sr = spec_parse_if_expression(old(self).toks(), old(self).pos());
                        assert(self.errs() =~= old(self).errs() + sr.errs);
                    }
                    return None;
                }
                let ghost bstart = self.pos();
                let consequence = self.parse_block();
                let ghost rb = spec_parse_block(old(self).toks(), bstart);
                if !self.cur_token_is(TokenType::RBrace) {
                    self.cur_errors(TokenType::RBrace);
                    proof {
                        let sr = spec_parse_if_expression(old(self).toks(), old(self).pos());
                        assert(self.errs() =~= old(self).errs() + sr.errs);
                    }
                    return None;
                }
                if self.peek_token_is(TokenType::Else) {
                    self.next_token();
                    if !self.expect_peek(TokenType::LBrace) {
                        proof {
                            let sr = spec_parse_if_expression(old(self).toks(), old(self).pos());
                            assert(self.errs() =~= old(self).errs() + sr.errs);
                        }
                        return None;
                    }
                    let ghost astart = self.pos();
                    let alternative = self.parse_block();
                    let ghost ra = spec_parse_block(old(self).toks(), astart);
                    if !self.cur_token_is(TokenType::RBrace) {
                        self.cur_errors(TokenType::RBrace);
                        proof {
                            let sr = spec_parse_if_expression(old(self).toks(), old(self).pos());
                            assert(self.errs() =~= old(self).errs() + sr.errs);
                        }
                        return None;
                    }
                    proof {
                        let sr = spec_parse_if_expression(old(self).toks(), old(self).pos());
                        assert(self.errs() =~= old(self).errs() + sr.errs);
                    }
                    return Some(
                        Expression::If(
                            IfExpression {
                                token: if_tok,
                                condition: Box::new(condition),
                                consequence,
                                alternative: Some(alternative),
                            },
                        ),
                    );
                }
                proof {
                    let sr = spec_parse_if_expression(old(self).toks(), old(self).pos());
                    assert(self.errs() =~= old(self).errs() + sr.errs);
                }
                Some(
                    Expression::If(
                        IfExpression {
                            token: if_tok,
                            condition: Box::new(condition),
                            consequence,
                            alternative: None,
                        },
                    ),
                )
            },
        }
    }

    /// `fn (parameters) { body }`.
    #[verifier::rlimit(100)]
    #[verifier::spinoff_prover]
    fn parse_function_literal(&mut self) -> (r: Option<Expression>)
        requires
            old(self).wf(),
        ensures
            final(self).wf(),
            final(self).toks() == old(self).toks(),
            old(self).pos() <= final(self).pos() <= old(self).toks().len(),
            ({
                let sr = spec_parse_function_literal(old(self).toks(), old(self).pos());
                &&& final(self).pos() == sr.pos
                &&& final(self).errs() == old(self).errs() + sr.errs
                &&& view_opt_expr(r) == sr.node
            }),
        decreases self.toks().len() - self.pos(), 2int,
    {
        proof {
            reveal(spec_parse_function_literal);
        }
        let fn_tok = self.cur_token();
        if !self.expect_peek(TokenType::LParen) {
            return None;
        }
        let ghost pstart = self.pos();
        let params_opt = self.parse_fn_params();
        let ghost rp = spec_parse_fn_params(old(self).toks(), pstart);
        match params_opt {
            None => {
                proof {
                    let sr = spec_parse_function_literal(old(self).toks(), old(self).pos());
                    assert(self.errs() =~= old(self).errs() + sr.errs);
                }
                None
            },
            Some(parameters) => {
                if !self.expect_peek(TokenType::LBrace) {
                    proof {
                        let sr = spec_parse_function_literal(old(self).toks(), old(self).pos());
                        assert(self.errs() =~= old(self).errs() + sr.errs);
                    }
                    return None;
                }
                let ghost bstart = self.pos();
                let body = self.parse_block();
                let ghost rb = spec_parse_block(old(self).toks(), bstart);
                if !self.cur_token_is(TokenType::RBrace) {
                    self.cur_errors(TokenType::RBrace);
                    proof {
                        let sr = spec_parse_function_literal(old(self).toks(), old(self).pos());
                        assert(self.errs() =~= old(self).errs() + sr.errs);
                    }
                    return None;
                }
                proof {
                    let sr = spec_parse_function_literal(old(self).toks(), old(self).pos());
                    assert(self.errs() =~= old(self).errs() + sr.errs);
                }
                Some(Expression::Function(FunctionLiteral { token: fn_tok, parameters, body }))
            },
        }
    }

    /// The comma-separated (possibly empty) parameter list of a function
    /// literal; each entry must be an `Identifier` token.
    #[verifier::spinoff_prover]
    #[verifier::rlimit(100)]
    fn parse_fn_params(&mut self) -> (r: Option<Vec<Identifier>>)
        requires
            old(self).wf(),
        ensures
            final(self).wf(),
            final(self).toks() == old(self).toks(),
            old(self).pos() <= final(self).pos() <= old(self).toks().len(),
            ({
                let sr = spec_parse_fn_params(old(self).toks(), old(self).pos());
                &&& final(self).pos() == sr.pos
                &&& final(self).errs() == old(self).errs() + sr.errs
                &&& (match r {
                    Some(v) => sr.node == Some(view_ident_seq(v@)),
                    None => sr.node is None,
                })
            }),
        decreases self.toks().len() - self.pos(), 5int,
    {
        proof {
            reveal(spec_parse_fn_params);
        }
        if self.peek_token_is(TokenType::RParen) {
            self.next_token();
            let params: Vec<Identifier> = Vec::new();
            proof {
                assert(view_ident_seq(params@) =~= Seq::<IdentV>::empty());
                assert(self.errs() =~= old(self).errs() + Seq::<ParseErrorV>::empty());
            }
            return Some(params);
        }
        if !self.expect_peek(TokenType::Identifier) {
            return None;
        }
        let c = self.cur_token();
        let value = c.literal.clone();
        let mut params: Vec<Identifier> = Vec::new();
        let ghost cv = tok_at(old(self).toks(), self.pos());
        params.push(Identifier { token: c, value });
        proof {
            assert(view_ident_seq(params@) =~= seq![IdentV { token: cv, value: cv.literal }]);
        }
        let res = self.parse_fn_params_rest(params);
        proof {
            let sr = spec_parse_fn_params(old(self).toks(), old(self).pos());
            assert(self.errs() =~= old(self).errs() + sr.errs);
        }
        res
    }

    #[verifier::spinoff_prover]
    #[verifier::rlimit(100)]
    fn parse_fn_params_rest(&mut self, params: Vec<Identifier>) -> (r: Option<Vec<Identifier>>)
        requires
            old(self).wf(),
        ensures
            final(self).wf(),
            final(self).toks() == old(self).toks(),
            old(self).pos() <= final(self).pos() <= old(self).toks().len(),
            ({
                let sr = spec_parse_fn_params_rest(
                    old(self).toks(),
                    old(self).pos(),
                    view_ident_seq(params@),
                );
                &&& final(self).pos() == sr.pos
                &&& final(self).errs() == old(self).errs() + sr.errs
                &&& (match r {
                    Some(v) => sr.node == Some(view_ident_seq(v@)),
                    None => sr.node is None,
                })
            }),
        decreases self.toks().len() - self.pos(), 4int,
    {
        proof {
            reveal(spec_parse_fn_params_rest);
        }
        let mut params = params;
        if self.peek_token_is(TokenType::Comma) {
            self.next_token();
            if !self.expect_peek(TokenType::Identifier) {
                proof {
                    let sr = spec_parse_fn_params_rest(
                        old(self).toks(),
                        old(self).pos(),
                        view_ident_seq(params@),
                    );
                    assert(self.errs() =~= old(self).errs() + sr.errs);
                }
                return None;
            }
            let c = self.cur_token();
            let value = c.literal.clone();
            let ghost cv = tok_at(old(self).toks(), self.pos());
            let ghost params_before = params@;
            params.push(Identifier { token: c, value });
            proof {
                assert(view_ident_seq(params@) =~= view_ident_seq(params_before).push(
                    IdentV { token: cv, value: cv.literal },
                ));
            }
            let res = self.parse_fn_params_rest(params);
            proof {
                let sr = spec_parse_fn_params_rest(
                    old(self).toks(),
                    old(self).pos(),
                    view_ident_seq(params_before),
                );
                assert(self.errs() =~= old(self).errs() + sr.errs);
            }
            res
        } else {
            if self.expect_peek(TokenType::RParen) {
                Some(params)
            } else {
                None
            }
        }
    }

    /// The comma-separated (possibly empty) argument list of a call, each
    /// argument parsed at `Lowest` strength, closed by `)`.
    #[verifier::spinoff_prover]
    #[verifier::rlimit(100)]
    fn parse_call_args(&mut self) -> (r: Option<Vec<Expression>>)
        requires
            old(self).wf(),
        ensures
            final(self).wf(),
            final(self).toks() == old(self).toks(),
            old(self).pos() <= final(self).pos() <= old(self).toks().len(),
            ({
                let sr = spec_parse_call_args(old(self).toks(), old(self).pos());
                &&& final(self).pos() == sr.pos
                &&& final(self).errs() == old(self).errs() + sr.errs
                &&& (match r {
                    Some(v) => sr.node == Some(view_expr_seq(v@)),
                    None => sr.node is None,
                })
            }),
        decreases self.toks().len() - self.pos(), 5int,
    {
        if self.peek_token_is(TokenType::RParen) {
            self.next_token();
            let args: Vec<Expression> = Vec::new();
            proof {
                reveal(spec_parse_call_args);
                let sr = spec_parse_call_args(old(self).toks(), old(self).pos());
                assert(view_expr_seq(args@) =~= Seq::<ExprV>::empty());
                assert(self.pos() == sr.pos);
                assert(self.errs() =~= old(self).errs() + sr.errs);
                assert(sr.node == Some(view_expr_seq(args@)));
            }
            return Some(args);
        }
        self.next_token();
        let ghost p = self.pos();
        let first_opt = self.parse_expression(Precedence::Lowest);
        let ghost re = spec_parse_expression(old(self).toks(), p, Precedence::Lowest);
        match first_opt {
            None => {
                proof {
                    reveal(spec_parse_call_args);
                    let sr = spec_parse_call_args(old(self).toks(), old(self).pos());
                    assert(self.pos() == sr.pos);
                    assert(self.errs() =~= old(self).errs() + sr.errs);
                    assert(sr.node is None);
                }
                None
            },
            Some(first) => {
                let ghost fv = first.view();
                let mut args: Vec<Expression> = Vec::new();
                proof {
                    assert(view_expr_seq(args@) =~= Seq::<ExprV>::empty());
                    crate::ast::lemma_view_expr_seq_push(args@, first);
                }
                args.push(first);
                proof {
                    assert(view_expr_seq(args@) =~= seq![fv]);
                }
                let res = self.parse_call_args_rest(args);
                proof {
                    reveal(spec_parse_call_args);
                    let sr = spec_parse_call_args(old(self).toks(), old(self).pos());
                    let rr = spec_parse_call_args_rest(old(self).toks(), re.pos, seq![fv]);
                    assert(self.pos() == sr.pos);
                    assert(self.errs() =~= old(self).errs() + (re.errs + rr.errs));
                    assert((match res {
                        Some(v) => sr.node == Some(view_expr_seq(v@)),
                        None => sr.node is None,
                    }));
                }
                res
            },
        }
    }

    #[verifier::spinoff_prover]
    #[verifier::rlimit(100)]
    fn parse_call_args_rest(&mut self, args: Vec<Expression>) -> (r: Option<Vec<Expression>>)
        requires
            old(self).wf(),
        ensures
            final(self).wf(),
            final(self).toks() == old(self).toks(),
            old(self).pos() <= final(self).pos() <= old(self).toks().len(),
            ({
                let sr = spec_parse_call_args_rest(
                    old(self).toks(),
                    old(self).pos(),
                    view_expr_seq(args@),
                );
                &&& final(self).pos() == sr.pos
                &&& final(self).errs() == old(self).errs() + sr.errs
                &&& (match r {
                    Some(v) => sr.node == Some(view_expr_seq(v@)),
                    None => sr.node is None,
                })
            }),
        decreases self.toks().len() - self.pos(), 4int,
    {
        let ghost av = view_expr_seq(args@);
        let mut args = args;
        if self.peek_token_is(TokenType::Comma) {
            self.next_token();
            self.next_token();
            let ghost p2 = self.pos();
            let e_opt = self.parse_expression(Precedence::Lowest);
            let ghost re = spec_parse_expression(old(self).toks(), p2, Precedence::Lowest);
            match e_opt {
                None => {
                    proof {
                        reveal(spec_parse_call_args_rest);
                        let sr = spec_parse_call_args_rest(old(self).toks(), old(self).pos(), av);
                        assert(self.pos() == sr.pos);
                        assert(self.errs() =~= old(self).errs() + sr.errs);
                        assert(sr.node is None);
                    }
                    None
                },
                Some(e) => {
                    let ghost ev = e.view();
                    proof {
                        crate::ast::lemma_view_expr_seq_push(args@, e);
                    }
                    args.push(e);
                    let res = self.parse_call_args_rest(args);
                    proof {
                        reveal(spec_parse_call_args_rest);
                        let sr = spec_parse_call_args_rest(old(self).toks(), old(self).pos(), av);
                        let rr = spec_parse_call_args_rest(old(self).toks(), re.pos, av.push(ev));
                        assert(self.pos() == sr.pos);
                        assert(self.errs() =~= old(self).errs() + (re.errs + rr.errs));
                        assert((match res {
                            Some(v) => sr.node == Some(view_expr_seq(v@)),
                            None => sr.node is None,
                        }));
                    }
                    res
                },
            }
        } else {
            if self.expect_peek(TokenType::RParen) {
                proof {
                    reveal(spec_parse_call_args_rest);
                    let sr = spec_parse_call_args_rest(old(self).toks(), old(self).pos(), av);
                    assert(self.pos() == sr.pos);
                    assert(self.errs() =~= old(self).errs() + sr.errs);
                    assert(sr.node == Some(view_expr_seq(args@)));
                }
                Some(args)
            } else {
                proof {
                    reveal(spec_parse_call_args_rest);
                    let sr = spec_parse_call_args_rest(old(self).toks(), old(self).pos(), av);
                    assert(self.pos() == sr.pos);
                    assert(self.errs() =~= old(self).errs() + sr.errs);
                    assert(sr.node is None);
                }
                None
            }
        }
    }

    /// A brace-delimited block: statements until `}` or the end of the
    /// input, with the same per-statement recovery as the whole program.
    /// The cursor ends on the `}` (the caller checks that it is there).
    #[verifier::rlimit(100)]
    #[verifier::spinoff_prover]
    fn parse_block(&mut self) -> (b: BlockStatement)
        requires
            old(self).wf(),
        ensures
            final(self).wf(),
            final(self).toks() == old(self).toks(),
            old(self).pos() <= final(self).pos() <= old(self).toks().len(),
            ({
                let sr = spec_parse_block(old(self).toks(), old(self).pos());
                &&& final(self).pos() == sr.pos
                &&& final(self).errs() == old(self).errs() + sr.errs
                &&& b.view() == sr.block
            }),
        decreases self.toks().len() - self.pos(), 10int,
    {
        proof {
            reveal(spec_parse_block);
        }
        proof {
            reveal(spec_parse_block_stmts);
        }
        let block_tok = self.cur_token();
        self.next_token();
        let ghost toks = self.toks();
        let ghost pos1 = self.pos();
        let ghost errs0 = self.errs();
        let mut statements: Vec<Statement> = Vec::new();
        let ghost mut delta: Seq<ParseErrorV> = Seq::empty();
        proof {
            assert(errs0 + delta =~= errs0);
            assert(view_stmt_seq(statements@) =~= Seq::<StmtV>::empty());
        }
        loop
            invariant
                self.wf(),
                toks == old(self).toks(),
                pos1 == spec_advance(toks, old(self).pos()),
                errs0 == old(self).errs(),
                self.toks() == toks,
                old(self).pos() <= pos1 <= self.pos() <= toks.len(),
                self.errs() == errs0 + delta,
                spec_parse_block_stmts(toks, pos1, Seq::empty(), Seq::empty())
                    == spec_parse_block_stmts(
                    toks,
                    self.pos(),
                    view_stmt_seq(statements@),
                    delta,
                ),
            ensures
                self.wf(),
                self.toks() == toks,
                old(self).pos() <= pos1 <= self.pos() <= toks.len(),
                self.errs() == errs0 + delta,
                spec_parse_block_stmts(toks, pos1, Seq::empty(), Seq::empty())
                    == spec_parse_block_stmts(
                    toks,
                    self.pos(),
                    view_stmt_seq(statements@),
                    delta,
                ),
                tok_at(toks, self.pos()).type_ == TokenType::RBrace || tok_at(
                    toks,
                    self.pos(),
                ).type_ == TokenType::EndOfInput,
            decreases toks.len() - self.pos(),
        {
            if self.cur_token_is(TokenType::RBrace) || self.cur_token_is(TokenType::EndOfInput) {
                break ;
            }
            proof {
                reveal(spec_parse_block_stmts);
            }
            let ghost p_before = self.pos();
            let ghost stmts_before = statements@;
            let ghost sr = spec_parse_statement(toks, p_before);
            let stmt_opt = self.parse_statement();
            match stmt_opt {
                Some(s) => {
                    proof {
                        crate::ast::lemma_view_stmt_seq_push(stmts_before, s);
                    }
                    statements.push(s);
                },
                None => {},
            }
            proof {
                delta = delta + sr.errs;
                assert(self.errs() =~= errs0 + delta);
            }
            self.next_token();
        }
        let b = BlockStatement { token: block_tok, statements };
        proof {
            assert(spec_parse_block_stmts(toks, self.pos(), view_stmt_seq(statements@), delta) == (
                view_stmt_seq(statements@),
                self.pos(),
                delta,
            ));
            let sr = spec_parse_block(old(self).toks(), old(self).pos());
            assert(sr.errs == delta);
            assert(self.errs() =~= old(self).errs() + sr.errs);
            assert(b.view() == sr.block);
        }
        b
    }
}

} // verus!
