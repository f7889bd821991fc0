//! Runtime values, runtime errors, and the arithmetic that evaluation leaves
//! to its caller.
use crate::number::{Decimal, DecimalView, Number};
use crate::scanner::token::{Token, TokenView};
use vstd::prelude::*;

verus! {

/// The result of evaluating an expression.
#[derive(Debug)]
pub enum Value {
    Number(Number),
    Text(String),
    Boolean(bool),
    Nil,
}

/// What a [`Value`] holds.
pub enum ValueView {
    Number(Number),
    Text(Seq<char>),
    Boolean(bool),
    Nil,
}

impl View for Value {
    type V = ValueView;

    open spec fn view(&self) -> ValueView {
        match self {
            Value::Number(n) => ValueView::Number(*n),
            Value::Text(s) => ValueView::Text(s@),
            Value::Boolean(b) => ValueView::Boolean(*b),
            Value::Nil => ValueView::Nil,
        }
    }
}

impl Clone for Value {
    fn clone(&self) -> (r: Self)
        ensures
            r@ == self@,
    {
        match self {
            Value::Number(n) => Value::Number(*n),
            Value::Text(s) => Value::Text(s.clone()),
            Value::Boolean(b) => Value::Boolean(*b),
            Value::Nil => Value::Nil,
        }
    }
}

/// A failed evaluation: what went wrong, and the token whose line is reported.
#[derive(Debug)]
pub struct RuntimeError {
    pub token: Token,
    pub message: String,
}

/// What a [`RuntimeError`] holds.
pub struct RuntimeErrorView {
    pub token: TokenView,
    pub message: Seq<char>,
}

impl View for RuntimeError {
    type V = RuntimeErrorView;

    open spec fn view(&self) -> RuntimeErrorView {
        RuntimeErrorView { token: self.token@, message: self.message@ }
    }
}

impl Clone for RuntimeError {
    fn clone(&self) -> (r: Self)
        ensures
            r@ == self@,
    {
        RuntimeError { token: self.token.clone(), message: self.message.clone() }
    }
}

impl RuntimeError {
    /// The error with a copy of `token` and the text of `message`.
    pub fn new(token: &Token, message: &str) -> (e: RuntimeError)
        ensures
            e@ == (RuntimeErrorView { token: token@, message: message@ }),
    {
        RuntimeError { token: token.clone(), message: message.to_owned() }
    }

    /// The line of the token that the error is reported at.
    pub fn line(&self) -> (n: usize)
        ensures
            n == self@.token.line,
    {
        self.token.line
    }
}

/// An operation on numbers whose result must be rounded to the nearest
/// binary64 value. Evaluation does not compute it: it names the operation,
/// and its caller supplies the result.
#[derive(Debug)]
pub enum Arithmetic {
    /// The binary64 value nearest to a decimal.
    Round(Decimal),
    /// The sum of two numbers.
    Add(Number, Number),
    /// The first number less the second.
    Subtract(Number, Number),
    /// The product of two numbers.
    Multiply(Number, Number),
    /// The first number divided by the second.
    Divide(Number, Number),
}

/// What an [`Arithmetic`] holds.
pub enum ArithmeticView {
    Round(DecimalView),
    Add(Number, Number),
    Subtract(Number, Number),
    Multiply(Number, Number),
    Divide(Number, Number),
}

impl View for Arithmetic {
    type V = ArithmeticView;

    open spec fn view(&self) -> ArithmeticView {
        match self {
            Arithmetic::Round(d) => ArithmeticView::Round(d@),
            Arithmetic::Add(a, b) => ArithmeticView::Add(*a, *b),
            Arithmetic::Subtract(a, b) => ArithmeticView::Subtract(*a, *b),
            Arithmetic::Multiply(a, b) => ArithmeticView::Multiply(*a, *b),
            Arithmetic::Divide(a, b) => ArithmeticView::Divide(*a, *b),
        }
    }
}

/// How far an evaluation got.
#[derive(Debug)]
pub enum Outcome {
    /// The expression has this value.
    Value(Value),
    /// The evaluation failed.
    Error(RuntimeError),
    /// The evaluation needs the result of this operation to go on.
    Needs(Arithmetic),
}

/// What an [`Outcome`] holds.
pub enum OutcomeView {
    Value(ValueView),
    Error(RuntimeErrorView),
    Needs(ArithmeticView),
}

impl View for Outcome {
    type V = OutcomeView;

    open spec fn view(&self) -> OutcomeView {
        match self {
            Outcome::Value(v) => OutcomeView::Value(v@),
            Outcome::Error(e) => OutcomeView::Error(e@),
            Outcome::Needs(a) => OutcomeView::Needs(a@),
        }
    }
}

} // verus!
