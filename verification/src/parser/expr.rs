//! Expression trees and their evaluation.
//!
//! Evaluation is a structural recursion over the tree. It decides everything
//! itself but the five operations of [`Arithmetic`], whose results are
//! rounded: those it takes from its caller. `interpret` is handed the results
//! obtained so far, in the order in which it asked for them, and either
//! finishes or names the next operation:
//!
//! ```text
//! let mut answers = Vec::new();
//! let result = loop {
//!     match expr.interpret(&answers) {
//!         Outcome::Value(value) => break Ok(value),
//!         Outcome::Error(error) => break Err(error),
//!         Outcome::Needs(operation) => answers.push(perform(&operation)),
//!     }
//! };
//! ```
//!
//! Each call evaluates from the start and reads the results where the
//! operations stand, so a call costs as much as the tree is large.
use crate::number::Number;
use crate::parser::semantics::{Unit, agrees, answered_by, lemma_interpret_sound};
use crate::parser::value::{
    Arithmetic, ArithmeticView, Outcome, OutcomeView, RuntimeError, RuntimeErrorView, Value,
    ValueView,
};
use crate::scanner::token::{Literal, LiteralView, Token, TokenType, TokenView, literal_view};
use vstd::prelude::*;

verus! {

/// An expression.
#[derive(Debug)]
pub enum Expr {
    /// Two operands joined by an operator.
    Binary { left: Box<Expr>, operator: Token, right: Box<Expr> },
    /// An expression in parentheses.
    Grouping { expression: Box<Expr> },
    /// A literal; `None` is `nil`.
    Literal { value: Option<Literal> },
    /// An operator applied to one operand.
    Unary { operator: Token, right: Box<Expr> },
}

/// What an [`Expr`] holds.
pub enum ExprView {
    Binary { left: Box<ExprView>, operator: TokenView, right: Box<ExprView> },
    Grouping { expression: Box<ExprView> },
    Literal { value: Option<LiteralView> },
    Unary { operator: TokenView, right: Box<ExprView> },
}

impl View for Expr {
    type V = ExprView;

    open spec fn view(&self) -> ExprView
        decreases self,
    {
        match self {
            Expr::Binary { left, operator, right } => ExprView::Binary {
                left: Box::new((**left).view()),
                operator: operator@,
                right: Box::new((**right).view()),
            },
            Expr::Grouping { expression } => ExprView::Grouping {
                expression: Box::new((**expression).view()),
            },
            Expr::Literal { value } => ExprView::Literal { value: literal_view(*value) },
            Expr::Unary { operator, right } => ExprView::Unary {
                operator: operator@,
                right: Box::new((**right).view()),
            },
        }
    }
}

/// The message for a unary minus whose operand is not a number.
pub open spec fn operand_message() -> Seq<char> {
    "Operand must be a number."@
}

/// The message for an arithmetic or comparison operator with an operand that
/// is not a number.
pub open spec fn operands_message() -> Seq<char> {
    "Operands must be numbers."@
}

/// The message for a `+` whose operands are neither two numbers nor two strings.
pub open spec fn addition_message() -> Seq<char> {
    "Operands must be two numbers or two strings."@
}

/// The message for a unary node whose operator is neither `!` nor `-`.
pub open spec fn unary_message() -> Seq<char> {
    "Invalid unary operator."@
}

/// The message for a binary node whose operator is no binary operator.
pub open spec fn binary_message() -> Seq<char> {
    "Invalid binary operator."@
}

/// Truthiness: `nil` and `false` are falsy, every other value is truthy.
pub open spec fn truthy(v: ValueView) -> bool {
    match v {
        ValueView::Nil => false,
        ValueView::Boolean(b) => b,
        _ => true,
    }
}

/// Equality of values: values of different kinds are unequal, two `nil`s are
/// equal, numbers are equal as numbers, booleans and strings by what they hold.
pub open spec fn values_equal(a: ValueView, b: ValueView) -> bool {
    match (a, b) {
        (ValueView::Nil, ValueView::Nil) => true,
        (ValueView::Number(x), ValueView::Number(y)) => x.equals_spec(y),
        (ValueView::Boolean(x), ValueView::Boolean(y)) => x == y,
        (ValueView::Text(x), ValueView::Text(y)) => x == y,
        _ => false,
    }
}

/// Whether an operator orders two numbers.
pub open spec fn is_comparison(t: TokenType) -> bool {
    t == TokenType::Greater || t == TokenType::GreaterEqual || t == TokenType::Less || t
        == TokenType::LessEqual
}

/// Whether an operator takes two numbers and gives a number that is rounded.
pub open spec fn is_rounded(t: TokenType) -> bool {
    t == TokenType::Minus || t == TokenType::Slash || t == TokenType::Star
}

/// What a comparison operator says of two numbers.
pub open spec fn compare(t: TokenType, a: Number, b: Number) -> bool {
    match t {
        TokenType::Greater => b.less_than_spec(a),
        TokenType::GreaterEqual => b.at_most_spec(a),
        TokenType::Less => a.less_than_spec(b),
        _ => a.at_most_spec(b),
    }
}

/// The operation that an arithmetic operator stands for.
pub open spec fn operation(t: TokenType, a: Number, b: Number) -> ArithmeticView {
    match t {
        TokenType::Minus => ArithmeticView::Subtract(a, b),
        TokenType::Slash => ArithmeticView::Divide(a, b),
        TokenType::Star => ArithmeticView::Multiply(a, b),
        _ => ArithmeticView::Add(a, b),
    }
}

/// An evaluation against a list of results: how far it got, and how many of
/// the results it read.
pub struct Trace {
    pub outcome: OutcomeView,
    pub used: nat,
}

/// The failure of an operator.
pub open spec fn failure(operator: TokenView, message: Seq<char>, used: nat) -> Trace {
    Trace {
        outcome: OutcomeView::Error(RuntimeErrorView { token: operator, message }),
        used,
    }
}

/// The result of an operation: the next of the results, if there is one left;
/// else the evaluation stops and names the operation.
pub open spec fn answer(request: ArithmeticView, answers: Seq<Number>, used: nat) -> Trace {
    if used < answers.len() {
        Trace {
            outcome: OutcomeView::Value(ValueView::Number(answers[used as int])),
            used: used + 1,
        }
    } else {
        Trace { outcome: OutcomeView::Needs(request), used }
    }
}

/// The evaluation of an expression against the results `answers`.
///
/// Operands are evaluated from left to right. The first failure ends the
/// evaluation, and so does the first operation for which no result is left.
pub open spec fn replay(e: ExprView, answers: Seq<Number>) -> Trace
    decreases e,
{
    match e {
        ExprView::Literal { value } => match value {
            None => Trace { outcome: OutcomeView::Value(ValueView::Nil), used: 0 },
            Some(LiteralView::Boolean(b)) => Trace {
                outcome: OutcomeView::Value(ValueView::Boolean(b)),
                used: 0,
            },
            Some(LiteralView::Text(s)) => Trace {
                outcome: OutcomeView::Value(ValueView::Text(s)),
                used: 0,
            },
            Some(LiteralView::Number(d)) => answer(ArithmeticView::Round(d), answers, 0),
        },
        ExprView::Grouping { expression } => replay(*expression, answers),
        ExprView::Unary { operator, right } => {
            if operator.token_type == TokenType::Bang {
                let r = replay(*right, answers);
                match r.outcome {
                    OutcomeView::Value(v) => Trace {
                        outcome: OutcomeView::Value(ValueView::Boolean(!truthy(v))),
                        used: r.used,
                    },
                    _ => r,
                }
            } else if operator.token_type == TokenType::Minus {
                let r = replay(*right, answers);
                match r.outcome {
                    OutcomeView::Value(ValueView::Number(n)) => Trace {
                        outcome: OutcomeView::Value(ValueView::Number(n.negated_spec())),
                        used: r.used,
                    },
                    OutcomeView::Value(_) => failure(operator, operand_message(), r.used),
                    _ => r,
                }
            } else {
                failure(operator, unary_message(), 0)
            }
        },
        ExprView::Binary { left, operator, right } => {
            let t = operator.token_type;
            if is_rounded(t) || is_comparison(t) {
                let l = replay(*left, answers);
                match l.outcome {
                    OutcomeView::Value(ValueView::Number(a)) => {
                        let r = replay(*right, answers.skip(l.used as int));
                        let used = l.used + r.used;
                        match r.outcome {
                            OutcomeView::Value(ValueView::Number(b)) => {
                                if is_comparison(t) {
                                    Trace {
                                        outcome: OutcomeView::Value(
                                            ValueView::Boolean(compare(t, a, b)),
                                        ),
                                        used,
                                    }
                                } else {
                                    answer(operation(t, a, b), answers, used)
                                }
                            },
                            OutcomeView::Value(_) => failure(operator, operands_message(), used),
                            other => Trace { outcome: other, used },
                        }
                    },
                    OutcomeView::Value(_) => failure(operator, operands_message(), l.used),
                    _ => l,
                }
            } else if t == TokenType::Plus {
                let l = replay(*left, answers);
                match l.outcome {
                    OutcomeView::Value(ValueView::Nil) => failure(
                        operator,
                        addition_message(),
                        l.used,
                    ),
                    OutcomeView::Value(a) => {
                        let r = replay(*right, answers.skip(l.used as int));
                        let used = l.used + r.used;
                        match r.outcome {
                            OutcomeView::Value(b) => match (a, b) {
                                (ValueView::Number(x), ValueView::Number(y)) => answer(
                                    ArithmeticView::Add(x, y),
                                    answers,
                                    used,
                                ),
                                (ValueView::Text(x), ValueView::Text(y)) => Trace {
                                    outcome: OutcomeView::Value(ValueView::Text(x + y)),
                                    used,
                                },
                                _ => failure(operator, addition_message(), used),
                            },
                            other => Trace { outcome: other, used },
                        }
                    },
                    _ => l,
                }
            } else if t == TokenType::EqualEqual || t == TokenType::BangEqual {
                let l = replay(*left, answers);
                match l.outcome {
                    OutcomeView::Value(a) => {
                        let r = replay(*right, answers.skip(l.used as int));
                        let used = l.used + r.used;
                        match r.outcome {
                            OutcomeView::Value(b) => Trace {
                                outcome: OutcomeView::Value(
                                    ValueView::Boolean(
                                        values_equal(a, b) == (t == TokenType::EqualEqual),
                                    ),
                                ),
                                used,
                            },
                            other => Trace { outcome: other, used },
                        }
                    },
                    _ => l,
                }
            } else {
                failure(operator, binary_message(), 0)
            }
        },
    }
}

/// The next of the results, from position `at`, as the result of `request`.
fn take_answer(request: Arithmetic, answers: &Vec<Number>, from: usize, at: usize) -> (r: (
    Outcome,
    usize,
))
    requires
        from <= at <= answers@.len(),
    ensures
        r.0@ == answer(request@, answers@.skip(from as int), (at - from) as nat).outcome,
        r.1 == from + answer(request@, answers@.skip(from as int), (at - from) as nat).used,
        r.1 <= answers@.len(),
{
    if at < answers.len() {
        (Outcome::Value(Value::Number(answers[at])), at + 1)
    } else {
        (Outcome::Needs(request), at)
    }
}

impl Expr {
    /// Evaluates the expression, given the results of the operations that
    /// earlier calls on the same expression asked for, in that order.
    ///
    /// The outcome is the value of the expression, the first failure, or the
    /// next operation whose result is needed. With no results at all the call
    /// finishes exactly when the evaluation meets no operation of
    /// [`Arithmetic`] before it ends.
    ///
    /// Whatever unit of arithmetic the results were collected from, the
    /// outcome is the one that the evaluation under that unit leads to: the
    /// operation that comes next, or the value or failure of the expression.
    pub fn interpret(&self, answers: &Vec<Number>) -> (outcome: Outcome)
        ensures
            outcome@ == replay(self@, answers@).outcome,
            forall|unit: Unit| #[trigger]
                answered_by(self@, unit, answers@) ==> agrees(self@, unit, answers@, outcome@),
    {
        let (outcome, _) = self.replay_from(answers, 0);
        assert(answers@.skip(0) == answers@);
        assert forall|unit: Unit| #[trigger] answered_by(self@, unit, answers@) implies agrees(
            self@,
            unit,
            answers@,
            outcome@,
        ) by {
            lemma_interpret_sound(self@, unit, answers@);
        }
        outcome
    }

    /// Evaluates the expression against the results from position `from` on,
    /// and says where the next result to be read stands.
    fn replay_from(&self, answers: &Vec<Number>, from: usize) -> (r: (Outcome, usize))
        requires
            from <= answers@.len(),
        ensures
            r.0@ == replay(self@, answers@.skip(from as int)).outcome,
            r.1 == from + replay(self@, answers@.skip(from as int)).used,
            r.1 <= answers@.len(),
        decreases self,
    {
        let ghost rest = answers@.skip(from as int);
        match self {
            Expr::Literal { value } => match value {
                None => (Outcome::Value(Value::Nil), from),
                Some(Literal::Boolean(b)) => (Outcome::Value(Value::Boolean(*b)), from),
                Some(Literal::Text(s)) => (Outcome::Value(Value::Text(s.clone())), from),
                Some(Literal::Number(d)) => take_answer(
                    Arithmetic::Round(d.clone()),
                    answers,
                    from,
                    from,
                ),
            },
            Expr::Grouping { expression } => expression.replay_from(answers, from),
            Expr::Unary { operator, right } => match operator.token_type {
                TokenType::Bang => {
                    let (r, used) = right.replay_from(answers, from);
                    match r {
                        Outcome::Value(v) => (
                            Outcome::Value(Value::Boolean(!Expr::is_truthy(&v))),
                            used,
                        ),
                        other => (other, used),
                    }
                },
                TokenType::Minus => {
                    let (r, used) = right.replay_from(answers, from);
                    match r {
                        Outcome::Value(v) => match Expr::try_convert(
                            v,
                            operator,
                            "Operand must be a number.",
                        ) {
                            Ok(n) => (Outcome::Value(Value::Number(n.negated())), used),
                            Err(e) => (Outcome::Error(e), used),
                        },
                        other => (other, used),
                    }
                },
                _ => (Outcome::Error(RuntimeError::new(operator, "Invalid unary operator.")), from),
            },
            Expr::Binary { left, operator, right } => match operator.token_type {
                TokenType::Minus
                | TokenType::Slash
                | TokenType::Star
                | TokenType::Greater
                | TokenType::GreaterEqual
                | TokenType::Less
                | TokenType::LessEqual => {
                    let (l, middle) = left.replay_from(answers, from);
                    let a: Number = match l {
                        Outcome::Value(v) => match Expr::try_convert(
                            v,
                            operator,
                            "Operands must be numbers.",
                        ) {
                            Ok(n) => n,
                            Err(e) => {
                                return (Outcome::Error(e), middle);
                            },
                        },
                        other => {
                            return (other, middle);
                        },
                    };
                    assert(rest.skip(middle - from) == answers@.skip(middle as int));
                    let (r, used) = right.replay_from(answers, middle);
                    let b: Number = match r {
                        Outcome::Value(v) => match Expr::try_convert(
                            v,
                            operator,
                            "Operands must be numbers.",
                        ) {
                            Ok(n) => n,
                            Err(e) => {
                                return (Outcome::Error(e), used);
                            },
                        },
                        other => {
                            return (other, used);
                        },
                    };
                    match operator.token_type {
                        TokenType::Minus => take_answer(
                            Arithmetic::Subtract(a, b),
                            answers,
                            from,
                            used,
                        ),
                        TokenType::Slash => take_answer(
                            Arithmetic::Divide(a, b),
                            answers,
                            from,
                            used,
                        ),
                        TokenType::Star => take_answer(
                            Arithmetic::Multiply(a, b),
                            answers,
                            from,
                            used,
                        ),
                        TokenType::Greater => (
                            Outcome::Value(Value::Boolean(a.greater_than(b))),
                            used,
                        ),
                        TokenType::GreaterEqual => (
                            Outcome::Value(Value::Boolean(a.at_least(b))),
                            used,
                        ),
                        TokenType::Less => (Outcome::Value(Value::Boolean(a.less_than(b))), used),
                        _ => (Outcome::Value(Value::Boolean(a.at_most(b))), used),
                    }
                },
                TokenType::Plus => {
                    let (l, middle) = left.replay_from(answers, from);
                    let a: Value = match l {
                        Outcome::Value(Value::Nil) => {
                            return (
                                Outcome::Error(
                                    RuntimeError::new(
                                        operator,
                                        "Operands must be two numbers or two strings.",
                                    ),
                                ),
                                middle,
                            );
                        },
                        Outcome::Value(v) => v,
                        other => {
                            return (other, middle);
                        },
                    };
                    assert(rest.skip(middle - from) == answers@.skip(middle as int));
                    let (r, used) = right.replay_from(answers, middle);
                    let b: Value = match r {
                        Outcome::Value(v) => v,
                        other => {
                            return (other, used);
                        },
                    };
                    match (a, b) {
                        (Value::Number(x), Value::Number(y)) => take_answer(
                            Arithmetic::Add(x, y),
                            answers,
                            from,
                            used,
                        ),
                        (Value::Text(x), Value::Text(y)) => (
                            Outcome::Value(Value::Text(x.concat(y.as_str()))),
                            used,
                        ),
                        _ => (
                            Outcome::Error(
                                RuntimeError::new(
                                    operator,
                                    "Operands must be two numbers or two strings.",
                                ),
                            ),
                            used,
                        ),
                    }
                },
                TokenType::EqualEqual | TokenType::BangEqual => {
                    let (l, middle) = left.replay_from(answers, from);
                    let a: Value = match l {
                        Outcome::Value(v) => v,
                        other => {
                            return (other, middle);
                        },
                    };
                    assert(rest.skip(middle - from) == answers@.skip(middle as int));
                    let (r, used) = right.replay_from(answers, middle);
                    let b: Value = match r {
                        Outcome::Value(v) => v,
                        other => {
                            return (other, used);
                        },
                    };
                    let same: bool = Expr::equals(&a, &b);
                    match operator.token_type {
                        TokenType::EqualEqual => (Outcome::Value(Value::Boolean(same)), used),
                        _ => (Outcome::Value(Value::Boolean(!same)), used),
                    }
                },
                _ => (
                    Outcome::Error(RuntimeError::new(operator, "Invalid binary operator.")),
                    from,
                ),
            },
        }
    }

    /// Truthiness: `nil` and `false` are falsy, every other value is truthy.
    pub fn is_truthy(value: &Value) -> (r: bool)
        ensures
            r == truthy(value@),
    {
        match value {
            Value::Nil => false,
            Value::Boolean(b) => *b,
            _ => true,
        }
    }

    /// Equality of values, without coercion.
    pub fn equals(a: &Value, b: &Value) -> (r: bool)
        ensures
            r == values_equal(a@, b@),
    {
        match (a, b) {
            (Value::Nil, Value::Nil) => true,
            (Value::Number(x), Value::Number(y)) => x.equals(*y),
            (Value::Boolean(x), Value::Boolean(y)) => *x == *y,
            (Value::Text(x), Value::Text(y)) => *x == *y,
            _ => false,
        }
    }

    /// The number that a value holds, or the failure of `token` with
    /// `message` if the value is not a number.
    pub fn try_convert(value: Value, token: &Token, message: &str) -> (r: Result<
        Number,
        RuntimeError,
    >)
        ensures
            match value@ {
                ValueView::Number(n) => r == Ok::<Number, RuntimeError>(n),
                _ => r matches Err(e) && e@ == (RuntimeErrorView {
                    token: token@,
                    message: message@,
                }),
            },
    {
        match value {
            Value::Number(n) => Ok(n),
            _ => Err(RuntimeError::new(token, message)),
        }
    }
}

/// An evaluation reads no more results than it was given.
pub proof fn lemma_replay_used(e: ExprView, answers: Seq<Number>)
    ensures
        replay(e, answers).used <= answers.len(),
    decreases e,
{
    match e {
        ExprView::Literal { value } => {},
        ExprView::Grouping { expression } => {
            lemma_replay_used(*expression, answers);
        },
        ExprView::Unary { operator, right } => {
            lemma_replay_used(*right, answers);
        },
        ExprView::Binary { left, operator, right } => {
            lemma_replay_used(*left, answers);
            let l = replay(*left, answers);
            lemma_replay_used(*right, answers.skip(l.used as int));
        },
    }
}

} // verus!
