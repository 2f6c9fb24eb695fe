//! The parser: located tokens to one expression tree, by recursive descent
//! with one function per precedence level.
//!
//! `parse_expression` and the functions it calls state the grammar over the
//! token sequence: from an index, what expression is read and where reading
//! stops, or which error is met first.

use vstd::prelude::*;
use crate::number::{natural_form, natural_form_of};
use crate::tokenizer::{CtxToken, Keyword, Symbol, Token, lexeme};

verus! {

/// A literal as it stands in the tree. A number keeps the digits it was
/// written with.
#[derive(Debug)]
pub enum Literal {
    Nil,
    Bool(bool),
    String(String),
    Number(String),
}

#[derive(Debug)]
pub enum Expr {
    Binary { left: Box<Expr>, operator: CtxToken, right: Box<Expr> },
    Grouping { expr: Box<Expr> },
    Literal { value: Literal },
    Unary { operator: CtxToken, expr: Box<Expr> },
    Ternary { condition: Box<Expr>, then: Box<Expr>, otherwise: Box<Expr> },
}

/// The text of a literal: `nil`, `true`, `false`, a number in its natural
/// decimal form, a string between double quotes.
pub open spec fn literal_text(v: Literal) -> Seq<char> {
    match v {
        Literal::Nil => "nil"@,
        Literal::Bool(b) => if b {
            "true"@
        } else {
            "false"@
        },
        Literal::String(s) => "\""@ + s@ + "\""@,
        Literal::Number(text) => natural_form(text@),
    }
}

/// The fully parenthesized text of a tree: each operator application and
/// each grouping in parentheses, operators by their lexemes.
pub open spec fn render(e: Expr) -> Seq<char>
    decreases e,
{
    match e {
        Expr::Binary { left, operator, right } => "("@ + render(*left) + " "@ + lexeme(
            operator.token@,
        ) + " "@ + render(*right) + ")"@,
        Expr::Grouping { expr } => "("@ + render(*expr) + ")"@,
        Expr::Literal { value } => literal_text(value),
        Expr::Unary { operator, expr } => "("@ + lexeme(operator.token@) + " "@ + render(*expr)
            + ")"@,
        Expr::Ternary { condition, then, otherwise } => "("@ + render(*condition) + " ? "@ + render(
            *then,
        ) + " : "@ + render(*otherwise) + ")"@,
    }
}

impl Literal {
    pub fn to_string(&self) -> (r: String)
        ensures
            r@ == literal_text(*self),
    {
        match self {
            Literal::Nil => String::from_str("nil"),
            Literal::Bool(b) => if *b {
                String::from_str("true")
            } else {
                String::from_str("false")
            },
            Literal::String(s) => {
                let mut out = String::from_str("\"");
                out.append(s.as_str());
                out.append("\"");
                out
            },
            Literal::Number(text) => natural_form_of(text),
        }
    }
}

impl Expr {
    pub fn to_string(&self) -> (r: String)
        ensures
            r@ == render(*self),
        decreases *self,
    {
        match self {
            Expr::Binary { left, operator, right } => {
                let mut out = String::from_str("(");
                out.append(left.to_string().as_str());
                out.append(" ");
                out.append(operator.token.get_lexeme().as_str());
                out.append(" ");
                out.append(right.to_string().as_str());
                out.append(")");
                out
            },
            Expr::Grouping { expr } => {
                let mut out = String::from_str("(");
                out.append(expr.to_string().as_str());
                out.append(")");
                out
            },
            Expr::Literal { value } => value.to_string(),
            Expr::Unary { operator, expr } => {
                let mut out = String::from_str("(");
                out.append(operator.token.get_lexeme().as_str());
                out.append(" ");
                out.append(expr.to_string().as_str());
                out.append(")");
                out
            },
            Expr::Ternary { condition, then, otherwise } => {
                let mut out = String::from_str("(");
                out.append(condition.to_string().as_str());
                out.append(" ? ");
                out.append(then.to_string().as_str());
                out.append(" : ");
                out.append(otherwise.to_string().as_str());
                out.append(")");
                out
            },
        }
    }
}

#[derive(Clone, Copy, Debug, PartialEq, Eq, Structural)]
pub enum ParseErrorKind {
    /// A token that only stands between two operands came first.
    MissingLeftOperand,
    MissingExpression,
    MissingClosingParen,
    MissingColon,
    /// The tree would be deeper than the parser allows.
    TooDeep,
}

/// The first parse error: its kind and the index of the token where it was
/// met (the number of tokens, if they ran out).
#[derive(Clone, Copy, Debug, PartialEq, Eq, Structural)]
pub struct ParseError {
    pub kind: ParseErrorKind,
    pub position: usize,
}

/// The binary precedence levels, loosest first.
#[derive(Clone, Copy, Debug, PartialEq, Eq, Structural)]
pub enum Level {
    Equality,
    Comparison,
    Term,
    Factor,
}

impl Level {
    /// The operators of the level.
    pub open spec fn has_operator(self, s: Symbol) -> bool {
        match self {
            Level::Equality => s == Symbol::EqualEqual || s == Symbol::BangEqual,
            Level::Comparison => s == Symbol::Less || s == Symbol::LessEqual || s == Symbol::Greater
                || s == Symbol::GreaterEqual,
            Level::Term => s == Symbol::Plus || s == Symbol::Minus,
            Level::Factor => s == Symbol::Star || s == Symbol::Slash,
        }
    }

    /// Orders the grammar's functions for termination: each calls only
    /// functions of lower rank at the same index.
    pub open spec fn rank(self) -> nat {
        match self {
            Level::Equality => 10,
            Level::Comparison => 8,
            Level::Term => 6,
            Level::Factor => 4,
        }
    }

    fn has_operator_exec(&self, s: Symbol) -> (r: bool)
        ensures
            r == self.has_operator(s),
    {
        match self {
            Level::Equality => s == Symbol::EqualEqual || s == Symbol::BangEqual,
            Level::Comparison => s == Symbol::Less || s == Symbol::LessEqual || s == Symbol::Greater
                || s == Symbol::GreaterEqual,
            Level::Term => s == Symbol::Plus || s == Symbol::Minus,
            Level::Factor => s == Symbol::Star || s == Symbol::Slash,
        }
    }
}

pub type Parsed = Result<(Expr, int), ParseError>;

pub open spec fn token_at(t: Seq<CtxToken>, i: int) -> Option<Token> {
    if 0 <= i < t.len() {
        Some(t[i].token)
    } else {
        None
    }
}

pub open spec fn symbol_at(t: Seq<CtxToken>, i: int, s: Symbol) -> bool {
    token_at(t, i) == Some(Token::Symbol(s))
}

pub open spec fn error_at(kind: ParseErrorKind, i: int) -> ParseError {
    ParseError { kind, position: i as usize }
}

/// A token that can only stand between two operands.
pub open spec fn is_binary_only(s: Symbol) -> bool {
    s == Symbol::EqualEqual || s == Symbol::BangEqual || s == Symbol::Less || s == Symbol::LessEqual
        || s == Symbol::Greater || s == Symbol::GreaterEqual || s == Symbol::Plus || s == Symbol::Star
        || s == Symbol::Slash
}

pub open spec fn larger(a: nat, b: nat) -> nat {
    if a >= b {
        a
    } else {
        b
    }
}

/// The depth of a tree: 1 for a literal, and for any other node one more
/// than its deepest child.
pub open spec fn depth(e: Expr) -> nat
    decreases e,
{
    match e {
        Expr::Literal { .. } => 1,
        Expr::Grouping { expr } => 1 + depth(*expr),
        Expr::Unary { expr, .. } => 1 + depth(*expr),
        Expr::Binary { left, right, .. } => 1 + larger(depth(*left), depth(*right)),
        Expr::Ternary { condition, then, otherwise } => 1 + larger(
            depth(*condition),
            larger(depth(*then), depth(*otherwise)),
        ),
    }
}

/// An expression from index `i` whose tree is at most `room` deep: a
/// ternary, or what the equality level reads. A node that would be deeper
/// fails with `TooDeep` at the token that would make it.
/// (Each sub-expression read consumes at least one token; the comparisons of
/// indices below only make that visible for termination.)
pub open spec fn parse_expression(t: Seq<CtxToken>, i: int, room: nat) -> Parsed
    decreases t.len() - i, 12nat,
{
    match parse_binary(t, i, Level::Equality, room) {
        Ok((condition, j)) => {
            if symbol_at(t, j, Symbol::Question) && j >= i {
                if depth(condition) >= room {
                    Err(error_at(ParseErrorKind::TooDeep, j))
                } else {
                    match parse_expression(t, j + 1, (room - 1) as nat) {
                        Ok((then, k)) => {
                            if symbol_at(t, k, Symbol::Colon) && k > j {
                                match parse_expression(t, k + 1, (room - 1) as nat) {
                                    Ok((otherwise, m)) => Ok(
                                        (
                                            Expr::Ternary {
                                                condition: Box::new(condition),
                                                then: Box::new(then),
                                                otherwise: Box::new(otherwise),
                                            },
                                            m,
                                        ),
                                    ),
                                    Err(e) => Err(e),
                                }
                            } else {
                                Err(error_at(ParseErrorKind::MissingColon, k))
                            }
                        },
                        Err(e) => Err(e),
                    }
                }
            } else {
                Ok((condition, j))
            }
        },
        Err(e) => Err(e),
    }
}

/// The operand of a binary level: the next tighter level, or a unary expression.
pub open spec fn parse_operand(t: Seq<CtxToken>, i: int, level: Level, room: nat) -> Parsed
    decreases t.len() - i, (level.rank() - 1) as nat,
{
    match level {
        Level::Equality => parse_binary(t, i, Level::Comparison, room),
        Level::Comparison => parse_binary(t, i, Level::Term, room),
        Level::Term => parse_binary(t, i, Level::Factor, room),
        Level::Factor => parse_unary(t, i, room),
    }
}

/// A left-associative chain of the level's operators.
pub open spec fn parse_binary(t: Seq<CtxToken>, i: int, level: Level, room: nat) -> Parsed
    decreases t.len() - i, level.rank(),
{
    match parse_operand(t, i, level, room) {
        Ok((left, j)) => {
            if i < j <= t.len() {
                parse_binary_rest(t, j, level, left, room)
            } else {
                Ok((left, j))
            }
        },
        Err(e) => Err(e),
    }
}

/// Having read `left`, from index `j`: while an operator of the level comes
/// next, read another operand and combine to the left.
pub open spec fn parse_binary_rest(t: Seq<CtxToken>, j: int, level: Level, left: Expr, room: nat) -> Parsed
    decreases t.len() - j, 0nat,
{
    match token_at(t, j) {
        Some(Token::Symbol(s)) => {
            if level.has_operator(s) {
                if depth(left) >= room {
                    Err(error_at(ParseErrorKind::TooDeep, j))
                } else {
                    match parse_operand(t, j + 1, level, (room - 1) as nat) {
                        Ok((right, k)) => {
                            let combined = Expr::Binary {
                                left: Box::new(left),
                                operator: t[j],
                                right: Box::new(right),
                            };
                            if j < k <= t.len() {
                                parse_binary_rest(t, k, level, combined, room)
                            } else {
                                Ok((combined, k))
                            }
                        },
                        Err(e) => Err(e),
                    }
                }
            } else {
                Ok((left, j))
            }
        },
        _ => Ok((left, j)),
    }
}

/// Prefix `!` and `-`, nesting to the right, over a primary expression.
/// With no room left, fails with `TooDeep`.
pub open spec fn parse_unary(t: Seq<CtxToken>, i: int, room: nat) -> Parsed
    decreases t.len() - i, 2nat,
{
    if room == 0 {
        Err(error_at(ParseErrorKind::TooDeep, i))
    } else if symbol_at(t, i, Symbol::Bang) || symbol_at(t, i, Symbol::Minus) {
        match parse_unary(t, i + 1, (room - 1) as nat) {
            Ok((e, j)) => Ok((Expr::Unary { operator: t[i], expr: Box::new(e) }, j)),
            Err(e) => Err(e),
        }
    } else {
        parse_primary(t, i, room)
    }
}

/// A literal, or an expression in parentheses (reached with `room` at least 1).
pub open spec fn parse_primary(t: Seq<CtxToken>, i: int, room: nat) -> Parsed
    decreases t.len() - i, 1nat,
{
    match token_at(t, i) {
        Some(Token::Keyword(Keyword::False)) => Ok(
            (Expr::Literal { value: Literal::Bool(false) }, i + 1),
        ),
        Some(Token::Keyword(Keyword::True)) => Ok(
            (Expr::Literal { value: Literal::Bool(true) }, i + 1),
        ),
        Some(Token::Keyword(Keyword::Nil)) => Ok((Expr::Literal { value: Literal::Nil }, i + 1)),
        Some(Token::Number(text)) => Ok((Expr::Literal { value: Literal::Number(text) }, i + 1)),
        Some(Token::String(text)) => Ok((Expr::Literal { value: Literal::String(text) }, i + 1)),
        Some(Token::Symbol(Symbol::LeftParen)) => match parse_expression(t, i + 1, (room - 1) as nat) {
            Ok((e, j)) => {
                if symbol_at(t, j, Symbol::RightParen) {
                    Ok((Expr::Grouping { expr: Box::new(e) }, j + 1))
                } else {
                    Err(error_at(ParseErrorKind::MissingClosingParen, j))
                }
            },
            Err(e) => Err(e),
        },
        Some(Token::Symbol(s)) => {
            if is_binary_only(s) {
                Err(error_at(ParseErrorKind::MissingLeftOperand, i))
            } else {
                Err(error_at(ParseErrorKind::MissingExpression, i))
            }
        },
        _ => Err(error_at(ParseErrorKind::MissingExpression, i)),
    }
}

/// The result of parsing the whole token sequence from its start, with trees
/// at most `max_depth` deep.
pub open spec fn parse_result(t: Seq<CtxToken>, max_depth: nat) -> Result<Expr, ParseError> {
    match parse_expression(t, 0, max_depth) {
        Ok((e, _)) => Ok(e),
        Err(e) => Err(e),
    }
}

/// The level whose operator `s` is, if it is a binary operator.
pub open spec fn level_of(s: Symbol) -> Option<Level> {
    if Level::Equality.has_operator(s) {
        Some(Level::Equality)
    } else if Level::Comparison.has_operator(s) {
        Some(Level::Comparison)
    } else if Level::Term.has_operator(s) {
        Some(Level::Term)
    } else if Level::Factor.has_operator(s) {
        Some(Level::Factor)
    } else {
        None
    }
}

/// The token at `k` is a binary operator of a level of rank below `rank`.
pub open spec fn operator_ranked_below(t: Seq<CtxToken>, k: int, rank: nat) -> bool {
    match token_at(t, k) {
        Some(Token::Symbol(s)) => match level_of(s) {
            Some(m) => m.rank() < rank,
            None => false,
        },
        _ => false,
    }
}

pub open spec fn number_literal(t: Seq<CtxToken>, k: int) -> Expr {
    Expr::Literal { value: Literal::Number(t[k].token->Number_0) }
}

/// A number literal followed by no operator that binds tighter than `level`
/// is a whole operand of `level`.
proof fn lemma_literal_operand(t: Seq<CtxToken>, i: int, level: Level, room: nat)
    requires
        0 <= i < t.len(),
        room >= 1,
        t[i].token is Number,
        !operator_ranked_below(t, i + 1, level.rank()),
    ensures
        parse_operand(t, i, level, room) == Ok::<(Expr, int), ParseError>(
            (number_literal(t, i), i + 1),
        ),
    decreases level.rank(),
{
    assert(token_at(t, i) == Some(t[i].token));
    assert(!symbol_at(t, i, Symbol::Bang) && !symbol_at(t, i, Symbol::Minus));
    assert(parse_primary(t, i, room) == Ok::<(Expr, int), ParseError>((number_literal(t, i), i + 1)));
    assert(parse_unary(t, i, room) == Ok::<(Expr, int), ParseError>((number_literal(t, i), i + 1)));
    let lit = number_literal(t, i);
    let next = match level {
        Level::Equality => Level::Comparison,
        Level::Comparison => Level::Term,
        Level::Term => Level::Factor,
        Level::Factor => Level::Factor,
    };
    if level != Level::Factor {
        lemma_literal_operand(t, i, next, room);
        if let Some(Token::Symbol(s)) = token_at(t, i + 1) {
            if next.has_operator(s) {
                assert(level_of(s) == Some(next));
            }
        }
        assert(parse_binary_rest(t, i + 1, next, lit, room) == Ok::<(Expr, int), ParseError>(
            (lit, i + 1),
        ));
        assert(parse_binary(t, i, next, room) == Ok::<(Expr, int), ParseError>((lit, i + 1)));
    }
}

/// Binary operators of one level group to the left: number literals `a`,
/// `b`, `c` joined by two operators of `level`, and followed by no operator
/// of that level or a tighter one, read as `(a op b) op c` wherever a tree
/// of depth 3 is allowed.
pub proof fn lemma_left_associative(t: Seq<CtxToken>, i: int, level: Level, room: nat)
    requires
        0 <= i,
        i + 4 < t.len(),
        room >= 3,
        t[i].token is Number,
        t[i + 2].token is Number,
        t[i + 4].token is Number,
        t[i + 1].token is Symbol && level.has_operator(t[i + 1].token->Symbol_0),
        t[i + 3].token is Symbol && level.has_operator(t[i + 3].token->Symbol_0),
        !operator_ranked_below(t, i + 5, level.rank() + 1),
    ensures
        parse_binary(t, i, level, room) == Ok::<(Expr, int), ParseError>(
            (
                Expr::Binary {
                    left: Box::new(
                        (Expr::Binary {
                            left: Box::new(number_literal(t, i)),
                            operator: t[i + 1],
                            right: Box::new(number_literal(t, i + 2)),
                        }),
                    ),
                    operator: t[i + 3],
                    right: Box::new(number_literal(t, i + 4)),
                },
                i + 5,
            ),
        ),
{
    lemma_literal_operand(t, i, level, room);
    lemma_literal_operand(t, i + 2, level, (room - 1) as nat);
    lemma_literal_operand(t, i + 4, level, (room - 1) as nat);
    let inner = Expr::Binary {
        left: Box::new(number_literal(t, i)),
        operator: t[i + 1],
        right: Box::new(number_literal(t, i + 2)),
    };
    let outer = Expr::Binary {
        left: Box::new(inner),
        operator: t[i + 3],
        right: Box::new(number_literal(t, i + 4)),
    };
    assert(depth(number_literal(t, i)) == 1);
    assert(depth(number_literal(t, i + 2)) == 1);
    assert(depth(inner) == 2);
    assert(parse_binary_rest(t, i + 5, level, outer, room) == Ok::<(Expr, int), ParseError>(
        (outer, i + 5),
    ));
    assert(parse_binary_rest(t, i + 3, level, inner, room) == Ok::<(Expr, int), ParseError>(
        (outer, i + 5),
    ));
    assert(parse_binary_rest(t, i + 1, level, number_literal(t, i), room) == Ok::<
        (Expr, int),
        ParseError,
    >((outer, i + 5)));
}

/// A keyword that begins a statement.
pub open spec fn starts_statement(t: Token) -> bool {
    match t {
        Token::Keyword(k) => k == Keyword::Class || k == Keyword::Fun || k == Keyword::Var || k
            == Keyword::For || k == Keyword::If || k == Keyword::While || k == Keyword::Print || k
            == Keyword::Return,
        _ => false,
    }
}

/// Where error recovery from index `i` resumes: just past the next `;`, or at
/// the next keyword that begins a statement, whichever comes first, or at the
/// end.
pub open spec fn recovery_point(t: Seq<CtxToken>, i: int) -> int
    decreases t.len() - i,
{
    if i >= t.len() {
        i
    } else if t[i].token == Token::Symbol(Symbol::SemiColon) {
        i + 1
    } else if starts_statement(t[i].token) {
        i
    } else {
        recovery_point(t, i + 1)
    }
}

/// An executable parse `r`, which moved the parser from `before` to `after`,
/// returned what the grammar gives with the tree's depth, within `room`, and
/// consumed a token at least on success.
pub open spec fn agrees(
    r: Result<(Expr, usize), ParseError>,
    p: Parsed,
    before: int,
    after: int,
    room: nat,
) -> bool {
    match p {
        Ok((e, j)) => r == Ok::<(Expr, usize), ParseError>((e, depth(e) as usize)) && after == j
            && before < j && depth(e) <= room,
        Err(err) => r == Err::<(Expr, usize), ParseError>(err),
    }
}

/// The deepest tree the parser builds unless told otherwise.
pub const DEFAULT_MAX_DEPTH: usize = 256;

fn larger_exec(a: usize, b: usize) -> (r: usize)
    ensures
        r == larger(a as nat, b as nat),
{
    if a >= b {
        a
    } else {
        b
    }
}

fn is_binary_only_exec(s: Symbol) -> (r: bool)
    ensures
        r == is_binary_only(s),
{
    s == Symbol::EqualEqual || s == Symbol::BangEqual || s == Symbol::Less || s == Symbol::LessEqual
        || s == Symbol::Greater || s == Symbol::GreaterEqual || s == Symbol::Plus || s == Symbol::Star
        || s == Symbol::Slash
}

pub struct Parser {
    current: usize,
    tokens: Vec<CtxToken>,
    max_depth: usize,
}

impl Parser {
    /// The tokens being parsed.
    pub closed spec fn tokens_spec(&self) -> Seq<CtxToken> {
        self.tokens@
    }

    /// The index of the next token to read.
    pub closed spec fn position(&self) -> int {
        self.current as int
    }

    /// The deepest tree the parser builds.
    pub closed spec fn max_depth_spec(&self) -> nat {
        self.max_depth as nat
    }

    pub closed spec fn wf(&self) -> bool {
        self.current <= self.tokens@.len() < usize::MAX
    }

    pub fn new(tokens: Vec<CtxToken>) -> (r: Parser)
        requires
            tokens@.len() < usize::MAX,
        ensures
            r.wf(),
            r.tokens_spec() == tokens@,
            r.position() == 0,
            r.max_depth_spec() == DEFAULT_MAX_DEPTH,
    {
        Parser { current: 0, tokens, max_depth: DEFAULT_MAX_DEPTH }
    }

    /// A parser that builds trees at most `max_depth` deep.
    pub fn with_max_depth(tokens: Vec<CtxToken>, max_depth: usize) -> (r: Parser)
        requires
            tokens@.len() < usize::MAX,
        ensures
            r.wf(),
            r.tokens_spec() == tokens@,
            r.position() == 0,
            r.max_depth_spec() == max_depth,
    {
        Parser { current: 0, tokens, max_depth }
    }

    fn get_current(&self) -> (r: Option<CtxToken>)
        ensures
            r == (if self.current < self.tokens@.len() {
                Some(self.tokens@[self.current as int])
            } else {
                None::<CtxToken>
            }),
    {
        if self.current < self.tokens.len() {
            Some(self.tokens[self.current].clone())
        } else {
            None
        }
    }

    fn advance(&mut self)
        requires
            old(self).wf(),
            old(self).current < old(self).tokens@.len(),
        ensures
            final(self).current == old(self).current + 1,
            final(self).tokens == old(self).tokens,
            final(self).max_depth == old(self).max_depth,
    {
        self.current = self.current + 1;
    }

    fn error(&self, kind: ParseErrorKind) -> (r: ParseError)
        ensures
            r == error_at(kind, self.current as int),
    {
        ParseError { kind, position: self.current }
    }

    /// Reads the symbol `expected` if it comes next; otherwise fails with `kind`.
    fn consume(&mut self, expected: Symbol, kind: ParseErrorKind) -> (r: Result<(), ParseError>)
        requires
            old(self).wf(),
        ensures
            final(self).wf(),
            final(self).tokens == old(self).tokens,
            final(self).max_depth == old(self).max_depth,
            symbol_at(old(self).tokens@, old(self).current as int, expected) ==> r is Ok
                && final(self).current == old(self).current + 1,
            !symbol_at(old(self).tokens@, old(self).current as int, expected) ==> r == Err::<(), ParseError>(
                error_at(kind, old(self).current as int),
            ) && final(self).current == old(self).current,
    {
        match self.get_current() {
            Some(ctx_token) => {
                if ctx_token.token == Token::Symbol(expected) {
                    self.advance();
                    Ok(())
                } else {
                    Err(self.error(kind))
                }
            },
            None => Err(self.error(kind)),
        }
    }

    /// Skips to just past the next `;`, or to the next keyword that begins a
    /// statement, or to the end.
    #[allow(dead_code)]
    fn synchronize(&mut self)
        requires
            old(self).wf(),
        ensures
            final(self).wf(),
            final(self).tokens == old(self).tokens,
            final(self).current == recovery_point(old(self).tokens@, old(self).current as int),
    {
        let ghost t = self.tokens@;
        let ghost i0 = self.current as int;
        while self.current < self.tokens.len()
            invariant
                self.wf(),
                self.tokens == old(self).tokens,
                self.tokens@ == t,
                i0 == old(self).current,
                recovery_point(t, i0) == recovery_point(t, self.current as int),
            decreases self.tokens@.len() - self.current,
        {
            match &self.tokens[self.current].token {
                Token::Symbol(Symbol::SemiColon) => {
                    self.advance();
                    return;
                },
                Token::Keyword(Keyword::Class)
                | Token::Keyword(Keyword::Fun)
                | Token::Keyword(Keyword::Var)
                | Token::Keyword(Keyword::For)
                | Token::Keyword(Keyword::If)
                | Token::Keyword(Keyword::While)
                | Token::Keyword(Keyword::Print)
                | Token::Keyword(Keyword::Return) => {
                    return;
                },
                _ => self.advance(),
            }
        }
    }

    /// Whether the next token is the symbol `s`.
    fn check(&self, s: Symbol) -> (r: bool)
        ensures
            r == symbol_at(self.tokens@, self.current as int, s),
    {
        match self.get_current() {
            Some(ctx_token) => ctx_token.token == Token::Symbol(s),
            None => false,
        }
    }

    /// Parses one expression from the current token, with trees at most
    /// `max_depth` deep. Tokens after it are left unread.
    pub fn parse(&mut self) -> (r: Result<Expr, ParseError>)
        requires
            old(self).wf(),
        ensures
            final(self).wf(),
            final(self).tokens_spec() == old(self).tokens_spec(),
            final(self).max_depth_spec() == old(self).max_depth_spec(),
            match parse_expression(
                old(self).tokens_spec(),
                old(self).position(),
                old(self).max_depth_spec(),
            ) {
                Ok((e, j)) => r == Ok::<Expr, ParseError>(e) && final(self).position() == j,
                Err(err) => r == Err::<Expr, ParseError>(err),
            },
    {
        match self.expression(self.max_depth) {
            Ok((e, _)) => Ok(e),
            Err(e) => Err(e),
        }
    }

    fn expression(&mut self, room: usize) -> (r: Result<(Expr, usize), ParseError>)
        requires
            old(self).wf(),
        ensures
            final(self).wf(),
            final(self).tokens == old(self).tokens,
            final(self).max_depth == old(self).max_depth,
            agrees(
                r,
                parse_expression(old(self).tokens@, old(self).current as int, room as nat),
                old(self).current as int,
                final(self).current as int,
                room as nat,
            ),
        decreases old(self).tokens@.len() - old(self).current, 13nat,
    {
        self.ternary(room)
    }

    fn ternary(&mut self, room: usize) -> (r: Result<(Expr, usize), ParseError>)
        requires
            old(self).wf(),
        ensures
            final(self).wf(),
            final(self).tokens == old(self).tokens,
            final(self).max_depth == old(self).max_depth,
            agrees(
                r,
                parse_expression(old(self).tokens@, old(self).current as int, room as nat),
                old(self).current as int,
                final(self).current as int,
                room as nat,
            ),
        decreases old(self).tokens@.len() - old(self).current, 12nat,
    {
        let (condition, condition_depth) = match self.binary(Level::Equality, room) {
            Ok(parsed) => parsed,
            Err(e) => {
                return Err(e);
            },
        };
        if self.check(Symbol::Question) {
            if condition_depth >= room {
                return Err(self.error(ParseErrorKind::TooDeep));
            }
            self.advance();
            let (then, then_depth) = match self.expression(room - 1) {
                Ok(parsed) => parsed,
                Err(e) => {
                    return Err(e);
                },
            };
            match self.consume(Symbol::Colon, ParseErrorKind::MissingColon) {
                Ok(()) => {},
                Err(e) => {
                    return Err(e);
                },
            }
            let (otherwise, otherwise_depth) = match self.expression(room - 1) {
                Ok(parsed) => parsed,
                Err(e) => {
                    return Err(e);
                },
            };
            let d = 1 + larger_exec(condition_depth, larger_exec(then_depth, otherwise_depth));
            Ok(
                (
                    Expr::Ternary {
                        condition: Box::new(condition),
                        then: Box::new(then),
                        otherwise: Box::new(otherwise),
                    },
                    d,
                ),
            )
        } else {
            Ok((condition, condition_depth))
        }
    }

    fn operand(&mut self, level: Level, room: usize) -> (r: Result<(Expr, usize), ParseError>)
        requires
            old(self).wf(),
        ensures
            final(self).wf(),
            final(self).tokens == old(self).tokens,
            final(self).max_depth == old(self).max_depth,
            agrees(
                r,
                parse_operand(old(self).tokens@, old(self).current as int, level, room as nat),
                old(self).current as int,
                final(self).current as int,
                room as nat,
            ),
        decreases old(self).tokens@.len() - old(self).current, (level.rank() - 1) as nat,
    {
        match level {
            Level::Equality => self.binary(Level::Comparison, room),
            Level::Comparison => self.binary(Level::Term, room),
            Level::Term => self.binary(Level::Factor, room),
            Level::Factor => self.unary(room),
        }
    }

    /// A left-associative chain of the operators of `level`.
    fn binary(&mut self, level: Level, room: usize) -> (r: Result<(Expr, usize), ParseError>)
        requires
            old(self).wf(),
        ensures
            final(self).wf(),
            final(self).tokens == old(self).tokens,
            final(self).max_depth == old(self).max_depth,
            agrees(
                r,
                parse_binary(old(self).tokens@, old(self).current as int, level, room as nat),
                old(self).current as int,
                final(self).current as int,
                room as nat,
            ),
        decreases old(self).tokens@.len() - old(self).current, level.rank(),
    {
        let ghost t = self.tokens@;
        let ghost i0 = self.current as int;
        let (mut expr, mut d) = match self.operand(level, room) {
            Ok(parsed) => parsed,
            Err(e) => {
                return Err(e);
            },
        };
        let mut done = false;
        while !done && self.current < self.tokens.len()
            invariant
                self.wf(),
                self.tokens == old(self).tokens,
                self.max_depth == old(self).max_depth,
                self.tokens@ == t,
                i0 == old(self).current,
                i0 < self.current,
                d == depth(expr),
                d <= room,
                !done ==> parse_binary(t, i0, level, room as nat) == parse_binary_rest(
                    t,
                    self.current as int,
                    level,
                    expr,
                    room as nat,
                ),
                done ==> parse_binary(t, i0, level, room as nat) == Ok::<(Expr, int), ParseError>(
                    (expr, self.current as int),
                ),
            decreases t.len() - self.current + (if done { 0int } else { 1int }),
        {
            let is_operator = match &self.tokens[self.current].token {
                Token::Symbol(s) => level.has_operator_exec(*s),
                _ => false,
            };
            if is_operator {
                if d >= room {
                    return Err(self.error(ParseErrorKind::TooDeep));
                }
                let operator = self.tokens[self.current].clone();
                self.advance();
                let (right, right_depth) = match self.operand(level, room - 1) {
                    Ok(parsed) => parsed,
                    Err(e) => {
                        return Err(e);
                    },
                };
                d = 1 + larger_exec(d, right_depth);
                expr = Expr::Binary { left: Box::new(expr), operator, right: Box::new(right) };
            } else {
                done = true;
            }
        }
        Ok((expr, d))
    }

    /// Prefix `!` and `-`, nesting to the right, over a primary expression.
    fn unary(&mut self, room: usize) -> (r: Result<(Expr, usize), ParseError>)
        requires
            old(self).wf(),
        ensures
            final(self).wf(),
            final(self).tokens == old(self).tokens,
            final(self).max_depth == old(self).max_depth,
            agrees(
                r,
                parse_unary(old(self).tokens@, old(self).current as int, room as nat),
                old(self).current as int,
                final(self).current as int,
                room as nat,
            ),
        decreases old(self).tokens@.len() - old(self).current, 2nat,
    {
        if room == 0 {
            return Err(self.error(ParseErrorKind::TooDeep));
        }
        if self.check(Symbol::Bang) || self.check(Symbol::Minus) {
            let operator = self.tokens[self.current].clone();
            self.advance();
            match self.unary(room - 1) {
                Ok((e, d)) => Ok((Expr::Unary { operator, expr: Box::new(e) }, d + 1)),
                Err(e) => Err(e),
            }
        } else {
            self.primary(room)
        }
    }

    /// A literal, or an expression in parentheses.
    fn primary(&mut self, room: usize) -> (r: Result<(Expr, usize), ParseError>)
        requires
            old(self).wf(),
            room >= 1,
        ensures
            final(self).wf(),
            final(self).tokens == old(self).tokens,
            final(self).max_depth == old(self).max_depth,
            agrees(
                r,
                parse_primary(old(self).tokens@, old(self).current as int, room as nat),
                old(self).current as int,
                final(self).current as int,
                room as nat,
            ),
        decreases old(self).tokens@.len() - old(self).current, 1nat,
    {
        if self.current >= self.tokens.len() {
            return Err(self.error(ParseErrorKind::MissingExpression));
        }
        let token = self.tokens[self.current].token.clone();
        match token {
            Token::Keyword(Keyword::False) => {
                self.advance();
                Ok((Expr::Literal { value: Literal::Bool(false) }, 1))
            },
            Token::Keyword(Keyword::True) => {
                self.advance();
                Ok((Expr::Literal { value: Literal::Bool(true) }, 1))
            },
            Token::Keyword(Keyword::Nil) => {
                self.advance();
                Ok((Expr::Literal { value: Literal::Nil }, 1))
            },
            Token::Number(text) => {
                self.advance();
                Ok((Expr::Literal { value: Literal::Number(text) }, 1))
            },
            Token::String(text) => {
                self.advance();
                Ok((Expr::Literal { value: Literal::String(text) }, 1))
            },
            Token::Symbol(Symbol::LeftParen) => {
                self.advance();
                let (expr, d) = match self.expression(room - 1) {
                    Ok(parsed) => parsed,
                    Err(e) => {
                        return Err(e);
                    },
                };
                match self.consume(Symbol::RightParen, ParseErrorKind::MissingClosingParen) {
                    Ok(()) => Ok((Expr::Grouping { expr: Box::new(expr) }, d + 1)),
                    Err(e) => Err(e),
                }
            },
            Token::Symbol(s) => {
                if is_binary_only_exec(s) {
                    Err(self.error(ParseErrorKind::MissingLeftOperand))
                } else {
                    Err(self.error(ParseErrorKind::MissingExpression))
                }
            },
            _ => Err(self.error(ParseErrorKind::MissingExpression)),
        }
    }
}

} // verus!
