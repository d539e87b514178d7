//! The AST model: programs, statements and expressions as closed tagged
//! variants, each node owning its children, immutable once constructed.
//! Every node type has a ghost mirror (`StmtV`, `ExprV`, ...) over character
//! sequences, and a rendering function whose result is pinned down by a
//! spec function that reproduces the fully parenthesized structure.

use vstd::prelude::*;
use crate::token::{Token, TokenV};

verus! {

broadcast use vstd::std_specs::vec::group_vec_axioms;

/// A name written in the source.
#[derive(Debug)]
pub struct Identifier {
    pub token: Token,
    pub value: String,
}

/// An integer literal that fits the target width.
#[derive(Debug)]
pub struct IntegerLiteral {
    pub token: Token,
    pub value: i64,
}

/// `true` or `false`.
#[derive(Debug)]
pub struct BooleanLiteral {
    pub token: Token,
    pub value: bool,
}

/// A unary operator applied to an operand: `-x`, `!ok`.
#[derive(Debug)]
pub struct PrefixExpression {
    pub token: Token,
    pub operator: String,
    pub right: Box<Expression>,
}

/// A binary operator between two operands: `a + b`, `x == y`.
#[derive(Debug)]
pub struct InfixExpression {
    pub token: Token,
    pub left: Box<Expression>,
    pub operator: String,
    pub right: Box<Expression>,
}

/// A brace-delimited sequence of statements.
#[derive(Debug)]
pub struct BlockStatement {
    pub token: Token,
    pub statements: Vec<Statement>,
}

/// `if (condition) { consequence } else { alternative }`, the else part
/// optional.
#[derive(Debug)]
pub struct IfExpression {
    pub token: Token,
    pub condition: Box<Expression>,
    pub consequence: BlockStatement,
    pub alternative: Option<BlockStatement>,
}

/// `fn (parameters) { body }`.
#[derive(Debug)]
pub struct FunctionLiteral {
    pub token: Token,
    pub parameters: Vec<Identifier>,
    pub body: BlockStatement,
}

/// A call: an already-parsed function expression applied to arguments.
#[derive(Debug)]
pub struct CallExpression {
    pub token: Token,
    pub function: Box<Expression>,
    pub arguments: Vec<Expression>,
}

/// The closed set of expression variants.
#[derive(Debug)]
pub enum Expression {
    Ident(Identifier),
    Int(IntegerLiteral),
    Bool(BooleanLiteral),
    Prefix(PrefixExpression),
    Infix(InfixExpression),
    If(IfExpression),
    Function(FunctionLiteral),
    Call(CallExpression),
}

/// `let name = value;`.
#[derive(Debug)]
pub struct LetStatement {
    pub token: Token,
    pub name: Identifier,
    pub value: Expression,
}

/// `return value?;` — the value is absent only when a semicolon follows
/// `return` immediately.
#[derive(Debug)]
pub struct ReturnStatements {
    pub token: Token,
    pub value: Option<Expression>,
}

/// A bare expression in statement position.
#[derive(Debug)]
pub struct ExpressionStatement {
    pub token: Token,
    pub expression: Expression,
}

/// The closed set of statement variants.
#[derive(Debug)]
pub enum Statement {
    Let(LetStatement),
    Return(ReturnStatements),
    Expr(ExpressionStatement),
}

/// The root node: the ordered statements of one source text.
#[derive(Debug)]
pub struct Program {
    pub statements: Vec<Statement>,
}

// ------------------------- ghost mirrors -------------------------

#[verifier::ext_equal]
pub ghost struct IdentV {
    pub token: TokenV,
    pub value: Seq<char>,
}

#[verifier::ext_equal]
pub ghost struct BlockV {
    pub token: TokenV,
    pub statements: Seq<StmtV>,
}

/// The mathematical image of an expression.
#[verifier::ext_equal]
pub ghost enum ExprV {
    Ident { token: TokenV, value: Seq<char> },
    Int { token: TokenV, value: i64 },
    Bool { token: TokenV, value: bool },
    Prefix { token: TokenV, operator: Seq<char>, right: Box<ExprV> },
    Infix { token: TokenV, left: Box<ExprV>, operator: Seq<char>, right: Box<ExprV> },
    If { token: TokenV, condition: Box<ExprV>, consequence: BlockV, alternative: Option<BlockV> },
    Function { token: TokenV, parameters: Seq<IdentV>, body: BlockV },
    Call { token: TokenV, function: Box<ExprV>, arguments: Seq<ExprV> },
}

/// The mathematical image of a statement.
#[verifier::ext_equal]
pub ghost enum StmtV {
    Let { token: TokenV, name: IdentV, value: ExprV },
    Return { token: TokenV, value: Option<ExprV> },
    Expr { token: TokenV, expression: ExprV },
}

impl Identifier {
    pub open spec fn view(self) -> IdentV {
        IdentV { token: self.token@, value: self.value@ }
    }
}

pub open spec fn view_ident_seq(v: Seq<Identifier>) -> Seq<IdentV> {
    v.map_values(|id: Identifier| id.view())
}

impl Expression {
    pub open spec fn view(self) -> ExprV
        decreases self,
    {
        match self {
            Expression::Ident(id) => ExprV::Ident { token: id.token@, value: id.value@ },
            Expression::Int(il) => ExprV::Int { token: il.token@, value: il.value },
            Expression::Bool(bl) => ExprV::Bool { token: bl.token@, value: bl.value },
            Expression::Prefix(pe) => ExprV::Prefix {
                token: pe.token@,
                operator: pe.operator@,
                right: Box::new((*pe.right).view()),
            },
            Expression::Infix(ie) => ExprV::Infix {
                token: ie.token@,
                left: Box::new((*ie.left).view()),
                operator: ie.operator@,
                right: Box::new((*ie.right).view()),
            },
            Expression::If(fe) => ExprV::If {
                token: fe.token@,
                condition: Box::new((*fe.condition).view()),
                consequence: fe.consequence.view(),
                alternative: match fe.alternative {
                    Some(b) => Some(b.view()),
                    None => None,
                },
            },
            Expression::Function(fl) => ExprV::Function {
                token: fl.token@,
                parameters: view_ident_seq(fl.parameters@),
                body: fl.body.view(),
            },
            Expression::Call(ce) => ExprV::Call {
                token: ce.token@,
                function: Box::new((*ce.function).view()),
                arguments: view_expr_seq(ce.arguments@),
            },
        }
    }
}

pub open spec fn view_expr_seq(v: Seq<Expression>) -> Seq<ExprV>
    decreases v,
{
    if v.len() == 0 {
        Seq::empty()
    } else {
        view_expr_seq(v.drop_last()).push(v.last().view())
    }
}

impl Statement {
    pub open spec fn view(self) -> StmtV
        decreases self,
    {
        match self {
            Statement::Let(ls) => StmtV::Let {
                token: ls.token@,
                name: ls.name.view(),
                value: ls.value.view(),
            },
            Statement::Return(rs) => StmtV::Return {
                token: rs.token@,
                value: match rs.value {
                    Some(e) => Some(e.view()),
                    None => None,
                },
            },
            Statement::Expr(es) => StmtV::Expr {
                token: es.token@,
                expression: es.expression.view(),
            },
        }
    }
}

pub open spec fn view_stmt_seq(v: Seq<Statement>) -> Seq<StmtV>
    decreases v,
{
    if v.len() == 0 {
        Seq::empty()
    } else {
        view_stmt_seq(v.drop_last()).push(v.last().view())
    }
}

impl BlockStatement {
    pub open spec fn view(self) -> BlockV
        decreases self,
    {
        BlockV { token: self.token@, statements: view_stmt_seq(self.statements@) }
    }
}

impl Program {
    pub open spec fn view(self) -> Seq<StmtV> {
        view_stmt_seq(self.statements@)
    }

    pub fn new() -> (p: Program)
        ensures
            p.statements@ == Seq::<Statement>::empty(),
    {
        Program { statements: Vec::new() }
    }
}

impl Default for Program {
    fn default() -> (p: Program)
        ensures
            p.statements@ == Seq::<Statement>::empty(),
    {
        Program::new()
    }
}

pub open spec fn view_opt_expr(o: Option<Expression>) -> Option<ExprV> {
    match o {
        Some(e) => Some(e.view()),
        None => None,
    }
}

pub open spec fn view_opt_stmt(o: Option<Statement>) -> Option<StmtV> {
    match o {
        Some(s) => Some(s.view()),
        None => None,
    }
}

/// Appending a statement appends its view.
pub proof fn lemma_view_stmt_seq_push(v: Seq<Statement>, s: Statement)
    ensures
        view_stmt_seq(v.push(s)) == view_stmt_seq(v).push(s.view()),
{
    assert(v.push(s).drop_last() =~= v);
    assert(v.push(s).last() == s);
}

/// Appending an expression appends its view.
pub proof fn lemma_view_expr_seq_push(v: Seq<Expression>, e: Expression)
    ensures
        view_expr_seq(v.push(e)) == view_expr_seq(v).push(e.view()),
{
    assert(v.push(e).drop_last() =~= v);
    assert(v.push(e).last() == e);
}

// ------------------------- rendering -------------------------

/// The string form of an expression: fully parenthesized for operators, so
/// the rendering exhibits exactly how operands were grouped.
pub open spec fn spec_expr_string(e: Expression) -> Seq<char>
    decreases e,
{
    match e {
        Expression::Ident(id) => id.value@,
        Expression::Int(il) => il.token.literal@,
        Expression::Bool(bl) => bl.token.literal@,
        Expression::Prefix(pe) => "("@ + pe.operator@ + spec_expr_string(*pe.right) + ")"@,
        Expression::Infix(ie) => "("@ + spec_expr_string(*ie.left) + " "@ + ie.operator@ + " "@
            + spec_expr_string(*ie.right) + ")"@,
        Expression::If(fe) => "if"@ + spec_expr_string(*fe.condition) + " "@ + spec_block_string(
            fe.consequence,
        ) + (match fe.alternative {
            Some(b) => "else "@ + spec_block_string(b),
            None => Seq::<char>::empty(),
        }),
        Expression::Function(fl) => fl.token.literal@ + "("@ + spec_params_string(fl.parameters@)
            + ") "@ + spec_block_string(fl.body),
        Expression::Call(ce) => spec_expr_string(*ce.function) + "("@ + spec_args_string(
            ce.arguments@,
        ) + ")"@,
    }
}

/// Call arguments joined by a comma and a space.
pub open spec fn spec_args_string(v: Seq<Expression>) -> Seq<char>
    decreases v,
{
    if v.len() == 0 {
        Seq::empty()
    } else if v.len() == 1 {
        spec_expr_string(v.last())
    } else {
        spec_args_string(v.drop_last()) + ", "@ + spec_expr_string(v.last())
    }
}

/// Parameter names joined by a comma and a space.
pub open spec fn spec_params_string(v: Seq<Identifier>) -> Seq<char>
    decreases v,
{
    if v.len() == 0 {
        Seq::empty()
    } else if v.len() == 1 {
        v.last().value@
    } else {
        spec_params_string(v.drop_last()) + ", "@ + v.last().value@
    }
}

/// The string form of a statement.
pub open spec fn spec_stmt_string(s: Statement) -> Seq<char>
    decreases s,
{
    match s {
        Statement::Let(ls) => ls.token.literal@ + " "@ + ls.name.value@ + " = "@
            + spec_expr_string(ls.value) + ";"@,
        Statement::Return(rs) => rs.token.literal@ + " "@ + (match rs.value {
            Some(e) => spec_expr_string(e),
            None => Seq::<char>::empty(),
        }) + ";"@,
        Statement::Expr(es) => spec_expr_string(es.expression),
    }
}

/// The string forms of a sequence of statements, concatenated.
pub open spec fn spec_stmts_string(v: Seq<Statement>) -> Seq<char>
    decreases v,
{
    if v.len() == 0 {
        Seq::empty()
    } else {
        spec_stmts_string(v.drop_last()) + spec_stmt_string(v.last())
    }
}

/// The string form of a block: its statements, concatenated.
pub open spec fn spec_block_string(b: BlockStatement) -> Seq<char>
    decreases b,
{
    spec_stmts_string(b.statements@)
}

/// The string form of a whole program: its statements, concatenated.
pub open spec fn spec_program_string(p: Program) -> Seq<char> {
    spec_stmts_string(p.statements@)
}

impl Expression {
    /// Renders the expression, parenthesizing every operator application.
    pub fn to_string(&self) -> (out: String)
        ensures
            out@ == spec_expr_string(*self),
        decreases *self,
    {
        match self {
            Expression::Ident(id) => id.value.clone(),
            Expression::Int(il) => il.token.literal.clone(),
            Expression::Bool(bl) => bl.token.literal.clone(),
            Expression::Prefix(pe) => {
                let mut out = String::from_str("(");
                out.append(pe.operator.as_str());
                let r = pe.right.to_string();
                out.append(r.as_str());
                out.append(")");
                out
            },
            Expression::Infix(ie) => {
                let mut out = String::from_str("(");
                let l = ie.left.to_string();
                out.append(l.as_str());
                out.append(" ");
                out.append(ie.operator.as_str());
                out.append(" ");
                let r = ie.right.to_string();
                out.append(r.as_str());
                out.append(")");
                out
            },
            Expression::If(fe) => {
                let mut out = String::from_str("if");
                let c = fe.condition.to_string();
                out.append(c.as_str());
                out.append(" ");
                let cons = fe.consequence.to_string();
                out.append(cons.as_str());
                match &fe.alternative {
                    Some(b) => {
                        out.append("else ");
                        let a = b.to_string();
                        out.append(a.as_str());
                    },
                    None => {},
                }
                out
            },
            Expression::Function(fl) => {
                let mut out = fl.token.literal.clone();
                out.append("(");
                let ps = params_string(&fl.parameters);
                out.append(ps.as_str());
                out.append(") ");
                let b = fl.body.to_string();
                out.append(b.as_str());
                out
            },
            Expression::Call(ce) => {
                let mut out = ce.function.to_string();
                out.append("(");
                let args = args_string(&ce.arguments);
                out.append(args.as_str());
                out.append(")");
                out
            },
        }
    }
}

/// Renders call arguments joined by ", ".
fn args_string(v: &Vec<Expression>) -> (out: String)
    ensures
        out@ == spec_args_string(v@),
    decreases *v,
{
    let mut out = String::new();
    let mut i: usize = 0;
    while i < v.len()
        invariant
            i <= v@.len(),
            out@ == spec_args_string(v@.take(i as int)),
        decreases v@.len() - i,
    {
        if i > 0 {
            out.append(", ");
        }
        let s = v[i].to_string();
        out.append(s.as_str());
        proof {
            let pre = v@.take(i as int);
            let cur = v@.take(i + 1 as int);
            assert(cur.drop_last() =~= pre);
            assert(cur.last() == v@[i as int]);
        }
        i = i + 1;
    }
    proof {
        assert(v@.take(v@.len() as int) =~= v@);
    }
    out
}

/// Renders parameter names joined by ", ".
fn params_string(v: &Vec<Identifier>) -> (out: String)
    ensures
        out@ == spec_params_string(v@),
{
    let mut out = String::new();
    let mut i: usize = 0;
    while i < v.len()
        invariant
            i <= v@.len(),
            out@ == spec_params_string(v@.take(i as int)),
        decreases v@.len() - i,
    {
        if i > 0 {
            out.append(", ");
        }
        out.append(v[i].value.as_str());
        proof {
            let pre = v@.take(i as int);
            let cur = v@.take(i + 1 as int);
            assert(cur.drop_last() =~= pre);
            assert(cur.last() == v@[i as int]);
        }
        i = i + 1;
    }
    proof {
        assert(v@.take(v@.len() as int) =~= v@);
    }
    out
}

impl Statement {
    /// Renders the statement.
    pub fn to_string(&self) -> (out: String)
        ensures
            out@ == spec_stmt_string(*self),
        decreases *self,
    {
        match self {
            Statement::Let(ls) => {
                let mut out = ls.token.literal.clone();
                out.append(" ");
                out.append(ls.name.value.as_str());
                out.append(" = ");
                let v = ls.value.to_string();
                out.append(v.as_str());
                out.append(";");
                out
            },
            Statement::Return(rs) => {
                let mut out = rs.token.literal.clone();
                out.append(" ");
                match &rs.value {
                    Some(e) => {
                        let v = e.to_string();
                        out.append(v.as_str());
                    },
                    None => {},
                }
                out.append(";");
                out
            },
            Statement::Expr(es) => es.expression.to_string(),
        }
    }
}

/// Renders a sequence of statements, concatenated.
fn stmts_string(v: &Vec<Statement>) -> (out: String)
    ensures
        out@ == spec_stmts_string(v@),
    decreases *v,
{
    let mut out = String::new();
    let mut i: usize = 0;
    while i < v.len()
        invariant
            i <= v@.len(),
            out@ == spec_stmts_string(v@.take(i as int)),
        decreases v@.len() - i,
    {
        let s = v[i].to_string();
        out.append(s.as_str());
        proof {
            let pre = v@.take(i as int);
            let cur = v@.take(i + 1 as int);
            assert(cur.drop_last() =~= pre);
            assert(cur.last() == v@[i as int]);
        }
        i = i + 1;
    }
    proof {
        assert(v@.take(v@.len() as int) =~= v@);
    }
    out
}

impl BlockStatement {
    /// Renders the block: its statements, concatenated.
    pub fn to_string(&self) -> (out: String)
        ensures
            out@ == spec_block_string(*self),
        decreases *self,
    {
        stmts_string(&self.statements)
    }
}

impl Program {
    /// Renders the whole program: its statements, concatenated.
    pub fn to_string(&self) -> (out: String)
        ensures
            out@ == spec_program_string(*self),
    {
        stmts_string(&self.statements)
    }
}

// ------------------------- token literals -------------------------

/// Everything in the tree can report the literal text of the token it was
/// built from.
pub trait Node {
    /// The literal text of the node's token.
    spec fn spec_token_literal(&self) -> Seq<char>;

    /// Returns the literal text of the node's token.
    fn token_literal(&self) -> (s: String)
        ensures
            s@ == self.spec_token_literal(),
    ;
}

impl Node for Identifier {
    open spec fn spec_token_literal(&self) -> Seq<char> {
        self.token.literal@
    }

    fn token_literal(&self) -> (s: String)
        ensures
            s@ == self.spec_token_literal(),
    {
        self.token.literal.clone()
    }
}

impl Node for LetStatement {
    open spec fn spec_token_literal(&self) -> Seq<char> {
        self.token.literal@
    }

    fn token_literal(&self) -> (s: String)
        ensures
            s@ == self.spec_token_literal(),
    {
        self.token.literal.clone()
    }
}

impl Node for ReturnStatements {
    open spec fn spec_token_literal(&self) -> Seq<char> {
        self.token.literal@
    }

    fn token_literal(&self) -> (s: String)
        ensures
            s@ == self.spec_token_literal(),
    {
        self.token.literal.clone()
    }
}

impl Node for ExpressionStatement {
    open spec fn spec_token_literal(&self) -> Seq<char> {
        self.token.literal@
    }

    fn token_literal(&self) -> (s: String)
        ensures
            s@ == self.spec_token_literal(),
    {
        self.token.literal.clone()
    }
}

impl Node for Statement {
    open spec fn spec_token_literal(&self) -> Seq<char> {
        match self {
            Statement::Let(ls) => ls.token.literal@,
            Statement::Return(rs) => rs.token.literal@,
            Statement::Expr(es) => es.token.literal@,
        }
    }

    fn token_literal(&self) -> (s: String)
        ensures
            s@ == self.spec_token_literal(),
    {
        match self {
            Statement::Let(ls) => ls.token.literal.clone(),
            Statement::Return(rs) => rs.token.literal.clone(),
            Statement::Expr(es) => es.token.literal.clone(),
        }
    }
}

impl Node for Program {
    /// A program reports its first statement's token literal; an empty
    /// program reports the empty string.
    open spec fn spec_token_literal(&self) -> Seq<char> {
        if self.statements@.len() > 0 {
            self.statements@[0].spec_token_literal()
        } else {
            Seq::empty()
        }
    }

    fn token_literal(&self) -> (s: String)
        ensures
            s@ == self.spec_token_literal(),
    {
        if self.statements.len() > 0 {
            self.statements[0].token_literal()
        } else {
            String::new()
        }
    }
}

} // verus!
