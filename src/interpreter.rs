//! The evaluator: one expression tree to one runtime value.
//!
//! Binary64 arithmetic and the decoding of number literals are the host's
//! work. The evaluator is given what the host has computed so far (`Facts`);
//! when it needs a result that is not there, it stops and names the request.
//! The host computes it, records it, and evaluates again. Everything else
//! (types, truthiness, equality, ordering, the zero check of division, which
//! branch of a ternary runs) is decided here.

use vstd::prelude::*;
use crate::number::Number;
use crate::parser::{Expr, Literal};
use crate::tokenizer::{CtxToken, Symbol, Token};

verus! {

/// A runtime value.
#[derive(Debug)]
pub enum Type {
    Nil,
    Bool(bool),
    String(String),
    Number(Number),
}

/// A runtime value, with its text as a sequence of characters.
pub enum TypeView {
    Nil,
    Bool(bool),
    Str(Seq<char>),
    Number(Number),
}

impl View for Type {
    type V = TypeView;

    open spec fn view(&self) -> TypeView {
        match self {
            Type::Nil => TypeView::Nil,
            Type::Bool(b) => TypeView::Bool(*b),
            Type::String(s) => TypeView::Str(s@),
            Type::Number(n) => TypeView::Number(*n),
        }
    }
}

impl PartialEq for Type {
    /// Same variant and same contents; numbers compare by bit pattern.
    fn eq(&self, other: &Type) -> (r: bool)
        ensures
            r == (self@ == other@),
    {
        match (self, other) {
            (Type::Nil, Type::Nil) => true,
            (Type::Bool(a), Type::Bool(b)) => *a == *b,
            (Type::String(a), Type::String(b)) => *a == *b,
            (Type::Number(a), Type::Number(b)) => *a == *b,
            _ => false,
        }
    }
}

impl vstd::std_specs::cmp::PartialEqSpecImpl for Type {
    open spec fn obeys_eq_spec() -> bool {
        true
    }

    open spec fn eq_spec(&self, other: &Type) -> bool {
        self@ == other@
    }
}

/// A runtime error, with the operator token it arose at.
#[derive(Debug)]
pub enum RuntimeError {
    TypeError(CtxToken),
    ZeroDivisionError(CtxToken),
}

/// The binary64 operations the host performs.
#[derive(Clone, Copy, Debug, PartialEq, Eq, Structural)]
pub enum Arith {
    Add,
    Subtract,
    Multiply,
    Divide,
}

/// What the evaluator asks of its host.
#[derive(Debug)]
pub enum Request {
    /// The binary64 value nearest to a number literal.
    Decode(String),
    /// The binary64 result of an operation.
    Compute(Arith, Number, Number),
}

/// The results the host has supplied.
pub struct Facts {
    pub decoded: Vec<(String, Number)>,
    pub computed: Vec<(Arith, Number, Number, Number)>,
}

/// How an evaluation ended.
#[derive(Debug)]
pub enum Evaluation {
    Value(Type),
    Failed(RuntimeError),
    Needs(Request),
}

pub enum Outcome {
    Value(TypeView),
    Failed(RuntimeError),
    Needs(Request),
}

impl View for Evaluation {
    type V = Outcome;

    open spec fn view(&self) -> Outcome {
        match self {
            Evaluation::Value(v) => Outcome::Value(v@),
            Evaluation::Failed(e) => Outcome::Failed(*e),
            Evaluation::Needs(q) => Outcome::Needs(*q),
        }
    }
}

/// The first recorded value of the literal `text`.
pub open spec fn decoded(d: Seq<(String, Number)>, text: Seq<char>) -> Option<Number>
    decreases d.len(),
{
    if d.len() == 0 {
        None
    } else if d[0].0@ == text {
        Some(d[0].1)
    } else {
        decoded(d.drop_first(), text)
    }
}

/// The first recorded result of `op` on `a` and `b`.
pub open spec fn computed(c: Seq<(Arith, Number, Number, Number)>, op: Arith, a: Number, b: Number) -> Option<Number>
    decreases c.len(),
{
    if c.len() == 0 {
        None
    } else if c[0].0 == op && c[0].1 == a && c[0].2 == b {
        Some(c[0].3)
    } else {
        computed(c.drop_first(), op, a, b)
    }
}

/// Truthiness: `nil`, `false`, the empty string and both zeros are false.
pub open spec fn truthy(v: TypeView) -> bool {
    match v {
        TypeView::Nil => false,
        TypeView::Bool(b) => b,
        TypeView::Str(s) => s.len() > 0,
        TypeView::Number(n) => !n.is_zero_spec(),
    }
}

/// Equality of the language: no coercion between variants, and numbers
/// compare as binary64 values.
pub open spec fn equal(l: TypeView, r: TypeView) -> bool {
    match (l, r) {
        (TypeView::Nil, TypeView::Nil) => true,
        (TypeView::Bool(a), TypeView::Bool(b)) => a == b,
        (TypeView::Str(a), TypeView::Str(b)) => a == b,
        (TypeView::Number(a), TypeView::Number(b)) => a.equals_spec(b),
        _ => false,
    }
}

/// An arithmetic result from the facts, or the request for it.
pub open spec fn arith(f: Facts, op: Arith, a: Number, b: Number) -> Outcome {
    match computed(f.computed@, op, a, b) {
        Some(n) => Outcome::Value(TypeView::Number(n)),
        None => Outcome::Needs(Request::Compute(op, a, b)),
    }
}

pub open spec fn apply_unary(operator: CtxToken, v: TypeView) -> Outcome {
    match operator.token {
        Token::Symbol(Symbol::Minus) => match v {
            TypeView::Number(n) => Outcome::Value(TypeView::Number(n.negated())),
            _ => Outcome::Failed(RuntimeError::TypeError(operator)),
        },
        Token::Symbol(Symbol::Bang) => Outcome::Value(TypeView::Bool(!truthy(v))),
        _ => Outcome::Failed(RuntimeError::TypeError(operator)),
    }
}

/// A comparison of two numbers; any other pair is a type error.
pub open spec fn compare(operator: CtxToken, l: TypeView, r: TypeView) -> Outcome {
    match (l, r) {
        (TypeView::Number(a), TypeView::Number(b)) => Outcome::Value(
            TypeView::Bool(
                match operator.token {
                    Token::Symbol(Symbol::Less) => a.less_spec(b),
                    Token::Symbol(Symbol::LessEqual) => a.less_equal_spec(b),
                    Token::Symbol(Symbol::Greater) => b.less_spec(a),
                    _ => b.less_equal_spec(a),
                },
            ),
        ),
        _ => Outcome::Failed(RuntimeError::TypeError(operator)),
    }
}

pub open spec fn apply_binary(operator: CtxToken, l: TypeView, r: TypeView, f: Facts) -> Outcome {
    let type_error = Outcome::Failed(RuntimeError::TypeError(operator));
    match operator.token {
        Token::Symbol(Symbol::Plus) => match (l, r) {
            (TypeView::Number(a), TypeView::Number(b)) => arith(f, Arith::Add, a, b),
            (TypeView::Str(a), TypeView::Str(b)) => Outcome::Value(TypeView::Str(a + b)),
            _ => type_error,
        },
        Token::Symbol(Symbol::Minus) => match (l, r) {
            (TypeView::Number(a), TypeView::Number(b)) => arith(f, Arith::Subtract, a, b),
            _ => type_error,
        },
        Token::Symbol(Symbol::Star) => match (l, r) {
            (TypeView::Number(a), TypeView::Number(b)) => arith(f, Arith::Multiply, a, b),
            _ => type_error,
        },
        Token::Symbol(Symbol::Slash) => match (l, r) {
            (TypeView::Number(a), TypeView::Number(b)) => if b.is_zero_spec() {
                Outcome::Failed(RuntimeError::ZeroDivisionError(operator))
            } else {
                arith(f, Arith::Divide, a, b)
            },
            _ => type_error,
        },
        Token::Symbol(Symbol::Less) => compare(operator, l, r),
        Token::Symbol(Symbol::LessEqual) => compare(operator, l, r),
        Token::Symbol(Symbol::Greater) => compare(operator, l, r),
        Token::Symbol(Symbol::GreaterEqual) => compare(operator, l, r),
        Token::Symbol(Symbol::EqualEqual) => Outcome::Value(TypeView::Bool(equal(l, r))),
        Token::Symbol(Symbol::BangEqual) => Outcome::Value(TypeView::Bool(!equal(l, r))),
        _ => type_error,
    }
}

/// The value of `e` given the facts `f`: operands first, left before right;
/// only the branch of a ternary that its condition selects.
pub open spec fn eval(e: Expr, f: Facts) -> Outcome
    decreases e,
{
    match e {
        Expr::Literal { value } => match value {
            Literal::Nil => Outcome::Value(TypeView::Nil),
            Literal::Bool(b) => Outcome::Value(TypeView::Bool(b)),
            Literal::String(s) => Outcome::Value(TypeView::Str(s@)),
            Literal::Number(text) => match decoded(f.decoded@, text@) {
                Some(n) => Outcome::Value(TypeView::Number(n)),
                None => Outcome::Needs(Request::Decode(text)),
            },
        },
        Expr::Grouping { expr } => eval(*expr, f),
        Expr::Unary { operator, expr } => match eval(*expr, f) {
            Outcome::Value(v) => apply_unary(operator, v),
            other => other,
        },
        Expr::Binary { left, operator, right } => match eval(*left, f) {
            Outcome::Value(l) => match eval(*right, f) {
                Outcome::Value(r) => apply_binary(operator, l, r, f),
                other => other,
            },
            other => other,
        },
        Expr::Ternary { condition, then, otherwise } => match eval(*condition, f) {
            Outcome::Value(v) => if truthy(v) {
                eval(*then, f)
            } else {
                eval(*otherwise, f)
            },
            other => other,
        },
    }
}

/// The two values are of different variants.
pub open spec fn different_variants(l: TypeView, r: TypeView) -> bool {
    match (l, r) {
        (TypeView::Nil, TypeView::Nil) => false,
        (TypeView::Bool(_), TypeView::Bool(_)) => false,
        (TypeView::Str(_), TypeView::Str(_)) => false,
        (TypeView::Number(_), TypeView::Number(_)) => false,
        _ => true,
    }
}

/// A ternary evaluates its condition, then only the branch the condition
/// selects: the other branch has no effect on the outcome, even one whose
/// evaluation would fail.
pub proof fn lemma_ternary_short_circuits(condition: Expr, then: Expr, otherwise: Expr, f: Facts)
    requires
        eval(condition, f) is Value,
    ensures
        truthy(eval(condition, f)->Value_0) ==> eval(
            (Expr::Ternary {
                condition: Box::new(condition),
                then: Box::new(then),
                otherwise: Box::new(otherwise),
            }),
            f,
        ) == eval(then, f),
        !truthy(eval(condition, f)->Value_0) ==> eval(
            (Expr::Ternary {
                condition: Box::new(condition),
                then: Box::new(then),
                otherwise: Box::new(otherwise),
            }),
            f,
        ) == eval(otherwise, f),
{
}

/// Division of two numbers fails with a zero-division error exactly when the
/// divisor is zero (of either sign); otherwise it is the binary64 quotient.
pub proof fn lemma_division_by_zero(operator: CtxToken, a: Number, b: Number, f: Facts)
    requires
        operator.token == Token::Symbol(Symbol::Slash),
    ensures
        b.is_zero_spec() ==> apply_binary(operator, TypeView::Number(a), TypeView::Number(b), f)
            == Outcome::Failed(RuntimeError::ZeroDivisionError(operator)),
        !b.is_zero_spec() ==> apply_binary(operator, TypeView::Number(a), TypeView::Number(b), f)
            == arith(f, Arith::Divide, a, b),
{
}

/// `-`, `*`, `/` and the four comparisons take two numbers; on any other
/// pair of operands they fail with a type error. `+` takes two numbers or two
/// strings, and fails with a type error on any other pair.
pub proof fn lemma_type_errors(operator: CtxToken, l: TypeView, r: TypeView, f: Facts)
    requires
        operator.token is Symbol,
    ensures
        ({
            let s = operator.token->Symbol_0;
            (s == Symbol::Minus || s == Symbol::Star || s == Symbol::Slash || s == Symbol::Less
                || s == Symbol::LessEqual || s == Symbol::Greater || s == Symbol::GreaterEqual)
                && !(l is Number && r is Number) ==> apply_binary(operator, l, r, f)
                == Outcome::Failed(RuntimeError::TypeError(operator))
        }),
        operator.token == Token::Symbol(Symbol::Plus) && !(l is Number && r is Number) && !(l is Str
            && r is Str) ==> apply_binary(operator, l, r, f) == Outcome::Failed(
            RuntimeError::TypeError(operator),
        ),
{
}

/// `==` and `!=` are defined on every pair of values and never fail; values
/// of different variants are never equal, and `nil` equals `nil`.
pub proof fn lemma_equality_is_total(operator: CtxToken, l: TypeView, r: TypeView, f: Facts)
    requires
        operator.token == Token::Symbol(Symbol::EqualEqual) || operator.token == Token::Symbol(
            Symbol::BangEqual,
        ),
    ensures
        apply_binary(operator, l, r, f) is Value,
        operator.token == Token::Symbol(Symbol::EqualEqual) ==> apply_binary(operator, l, r, f)
            == Outcome::Value(TypeView::Bool(equal(l, r))),
        operator.token == Token::Symbol(Symbol::BangEqual) ==> apply_binary(operator, l, r, f)
            == Outcome::Value(TypeView::Bool(!equal(l, r))),
        different_variants(l, r) ==> !equal(l, r),
        equal(TypeView::Nil, TypeView::Nil),
{
}

/// The empty string and both zeros are false, every other string and number
/// is true; and `!!x` is the truthiness of `x` as a boolean.
pub proof fn lemma_truthiness(e: Expr, bang1: CtxToken, bang2: CtxToken, f: Facts)
    requires
        bang1.token == Token::Symbol(Symbol::Bang),
        bang2.token == Token::Symbol(Symbol::Bang),
        eval(e, f) is Value,
    ensures
        forall|s: Seq<char>| truthy(TypeView::Str(s)) <==> s.len() > 0,
        forall|n: Number| truthy(TypeView::Number(n)) <==> !n.is_zero_spec(),
        eval(
            (Expr::Unary {
                operator: bang1,
                expr: Box::new((Expr::Unary { operator: bang2, expr: Box::new(e) })),
            }),
            f,
        ) == Outcome::Value(TypeView::Bool(truthy(eval(e, f)->Value_0))),
{
    let inner = Expr::Unary { operator: bang2, expr: Box::new(e) };
    assert(eval(inner, f) == Outcome::Value(TypeView::Bool(!truthy(eval(e, f)->Value_0))));
}

impl Facts {
    pub fn new() -> (r: Facts)
        ensures
            r.decoded@.len() == 0,
            r.computed@.len() == 0,
    {
        Facts { decoded: Vec::new(), computed: Vec::new() }
    }

    pub fn record_decoded(&mut self, text: String, value: Number)
        ensures
            final(self).decoded@ == old(self).decoded@.push((text, value)),
            final(self).computed == old(self).computed,
    {
        self.decoded.push((text, value));
    }

    pub fn record_computed(&mut self, op: Arith, a: Number, b: Number, result: Number)
        ensures
            final(self).computed@ == old(self).computed@.push((op, a, b, result)),
            final(self).decoded == old(self).decoded,
    {
        self.computed.push((op, a, b, result));
    }

    pub fn lookup_decoded(&self, text: &String) -> (r: Option<Number>)
        ensures
            r == decoded(self.decoded@, text@),
    {
        let mut i: usize = 0;
        assert(self.decoded@.skip(0) =~= self.decoded@);
        while i < self.decoded.len()
            invariant
                i <= self.decoded@.len(),
                decoded(self.decoded@, text@) == decoded(self.decoded@.skip(i as int), text@),
            decreases self.decoded@.len() - i,
        {
            assert(self.decoded@.skip(i as int).drop_first() =~= self.decoded@.skip(i + 1));
            if self.decoded[i].0 == *text {
                return Some(self.decoded[i].1);
            }
            i = i + 1;
        }
        None
    }

    pub fn lookup_computed(&self, op: Arith, a: Number, b: Number) -> (r: Option<Number>)
        ensures
            r == computed(self.computed@, op, a, b),
    {
        let mut i: usize = 0;
        assert(self.computed@.skip(0) =~= self.computed@);
        while i < self.computed.len()
            invariant
                i <= self.computed@.len(),
                computed(self.computed@, op, a, b) == computed(self.computed@.skip(i as int), op, a, b),
            decreases self.computed@.len() - i,
        {
            assert(self.computed@.skip(i as int).drop_first() =~= self.computed@.skip(i + 1));
            let entry = &self.computed[i];
            if entry.0 == op && entry.1 == a && entry.2 == b {
                return Some(entry.3);
            }
            i = i + 1;
        }
        None
    }
}

pub struct Interpreter {}

impl Interpreter {
    /// Truthiness of a value.
    pub fn is_truthy(value: &Type) -> (r: bool)
        ensures
            r == truthy(value@),
    {
        match value {
            Type::Nil => false,
            Type::Bool(b) => *b,
            Type::String(s) => s.unicode_len() > 0,
            Type::Number(n) => !n.is_zero(),
        }
    }

    /// Equality of the language.
    pub fn is_equal(left: &Type, right: &Type) -> (r: bool)
        ensures
            r == equal(left@, right@),
    {
        match (left, right) {
            (Type::Nil, Type::Nil) => true,
            (Type::Bool(a), Type::Bool(b)) => *a == *b,
            (Type::String(a), Type::String(b)) => *a == *b,
            (Type::Number(a), Type::Number(b)) => a.equals(b),
            _ => false,
        }
    }

    fn arith(facts: &Facts, op: Arith, a: Number, b: Number) -> (r: Evaluation)
        ensures
            r@ == arith(*facts, op, a, b),
    {
        match facts.lookup_computed(op, a, b) {
            Some(n) => Evaluation::Value(Type::Number(n)),
            None => Evaluation::Needs(Request::Compute(op, a, b)),
        }
    }

    fn evaluate_unary(operator: &CtxToken, value: Type) -> (r: Evaluation)
        ensures
            r@ == apply_unary(*operator, value@),
    {
        match &operator.token {
            Token::Symbol(Symbol::Minus) => match value {
                Type::Number(n) => Evaluation::Value(Type::Number(n.negate())),
                _ => Evaluation::Failed(RuntimeError::TypeError(operator.clone())),
            },
            Token::Symbol(Symbol::Bang) => Evaluation::Value(Type::Bool(!Interpreter::is_truthy(&value))),
            _ => Evaluation::Failed(RuntimeError::TypeError(operator.clone())),
        }
    }

    fn compare(operator: &CtxToken, left: Type, right: Type) -> (r: Evaluation)
        ensures
            r@ == compare(*operator, left@, right@),
    {
        match (left, right) {
            (Type::Number(a), Type::Number(b)) => {
                let result = match &operator.token {
                    Token::Symbol(Symbol::Less) => a.less_than(&b),
                    Token::Symbol(Symbol::LessEqual) => a.less_equal(&b),
                    Token::Symbol(Symbol::Greater) => b.less_than(&a),
                    _ => b.less_equal(&a),
                };
                Evaluation::Value(Type::Bool(result))
            },
            _ => Evaluation::Failed(RuntimeError::TypeError(operator.clone())),
        }
    }

    fn evaluate_binary(operator: &CtxToken, left: Type, right: Type, facts: &Facts) -> (r: Evaluation)
        ensures
            r@ == apply_binary(*operator, left@, right@, *facts),
    {
        match &operator.token {
            Token::Symbol(Symbol::Plus) => match (left, right) {
                (Type::Number(a), Type::Number(b)) => Interpreter::arith(facts, Arith::Add, a, b),
                (Type::String(a), Type::String(b)) => Evaluation::Value(Type::String(a.concat(b.as_str()))),
                _ => Evaluation::Failed(RuntimeError::TypeError(operator.clone())),
            },
            Token::Symbol(Symbol::Minus) => match (left, right) {
                (Type::Number(a), Type::Number(b)) => Interpreter::arith(facts, Arith::Subtract, a, b),
                _ => Evaluation::Failed(RuntimeError::TypeError(operator.clone())),
            },
            Token::Symbol(Symbol::Star) => match (left, right) {
                (Type::Number(a), Type::Number(b)) => Interpreter::arith(facts, Arith::Multiply, a, b),
                _ => Evaluation::Failed(RuntimeError::TypeError(operator.clone())),
            },
            Token::Symbol(Symbol::Slash) => match (left, right) {
                (Type::Number(a), Type::Number(b)) => {
                    if b.is_zero() {
                        Evaluation::Failed(RuntimeError::ZeroDivisionError(operator.clone()))
                    } else {
                        Interpreter::arith(facts, Arith::Divide, a, b)
                    }
                },
                _ => Evaluation::Failed(RuntimeError::TypeError(operator.clone())),
            },
            Token::Symbol(Symbol::Less) => Interpreter::compare(operator, left, right),
            Token::Symbol(Symbol::LessEqual) => Interpreter::compare(operator, left, right),
            Token::Symbol(Symbol::Greater) => Interpreter::compare(operator, left, right),
            Token::Symbol(Symbol::GreaterEqual) => Interpreter::compare(operator, left, right),
            Token::Symbol(Symbol::EqualEqual) => Evaluation::Value(Type::Bool(Interpreter::is_equal(&left, &right))),
            Token::Symbol(Symbol::BangEqual) => Evaluation::Value(Type::Bool(!Interpreter::is_equal(&left, &right))),
            _ => Evaluation::Failed(RuntimeError::TypeError(operator.clone())),
        }
    }

    fn evaluate_ternary(condition: &Expr, then: &Expr, otherwise: &Expr, facts: &Facts) -> (r: Evaluation)
        ensures
            r@ == eval(
                (Expr::Ternary {
                    condition: Box::new(*condition),
                    then: Box::new(*then),
                    otherwise: Box::new(*otherwise),
                }),
                *facts,
            ),
        decreases
            (Expr::Ternary {
                condition: Box::new(*condition),
                then: Box::new(*then),
                otherwise: Box::new(*otherwise),
            }),
            0nat,
    {
        match Interpreter::evaluate(condition, facts) {
            Evaluation::Value(v) => if Interpreter::is_truthy(&v) {
                Interpreter::evaluate(then, facts)
            } else {
                Interpreter::evaluate(otherwise, facts)
            },
            other => other,
        }
    }

    /// Evaluates `expr` with the host's results in `facts`.
    pub fn evaluate(expr: &Expr, facts: &Facts) -> (r: Evaluation)
        ensures
            r@ == eval(*expr, *facts),
        decreases *expr, 1nat,
    {
        match expr {
            Expr::Literal { value } => match value {
                Literal::Nil => Evaluation::Value(Type::Nil),
                Literal::Bool(b) => Evaluation::Value(Type::Bool(*b)),
                Literal::String(s) => Evaluation::Value(Type::String(s.clone())),
                Literal::Number(text) => match facts.lookup_decoded(text) {
                    Some(n) => Evaluation::Value(Type::Number(n)),
                    None => Evaluation::Needs(Request::Decode(text.clone())),
                },
            },
            Expr::Grouping { expr } => Interpreter::evaluate(expr, facts),
            Expr::Unary { operator, expr } => match Interpreter::evaluate(expr, facts) {
                Evaluation::Value(v) => Interpreter::evaluate_unary(operator, v),
                other => other,
            },
            Expr::Binary { left, operator, right } => match Interpreter::evaluate(left, facts) {
                Evaluation::Value(l) => match Interpreter::evaluate(right, facts) {
                    Evaluation::Value(r) => Interpreter::evaluate_binary(operator, l, r, facts),
                    other => other,
                },
                other => other,
            },
            Expr::Ternary { condition, then, otherwise } => Interpreter::evaluate_ternary(
                condition,
                then,
                otherwise,
                facts,
            ),
        }
    }
}

} // verus!
