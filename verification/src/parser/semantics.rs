//! What evaluation means, and why handing `interpret` the results it asks for
//! computes that.
//!
//! The meaning of an expression is given against a unit of arithmetic: any
//! function from the operations of [`Arithmetic`](crate::parser::Arithmetic)
//! to numbers. The laws below say that a caller who answers each
//! operation that `interpret` names with the unit's result is led, in as many
//! steps as the evaluation has operations, to the value or the failure that
//! the expression has under that unit.
use crate::number::Number;
use crate::parser::expr::{
    ExprView, Trace, addition_message, binary_message, compare, is_comparison, is_rounded,
    operand_message, operands_message, operation, replay, truthy, unary_message, values_equal,
};
use crate::parser::value::{ArithmeticView, OutcomeView, RuntimeErrorView, ValueView};
use crate::scanner::token::{LiteralView, TokenType, TokenView};
use vstd::prelude::*;

verus! {

/// A unit of arithmetic: the result of each operation.
pub type Unit = spec_fn(ArithmeticView) -> Number;

/// A finished evaluation: the value of the expression or its failure, and the
/// results of the operations that were performed on the way, in order.
pub struct Run {
    pub result: Result<ValueView, RuntimeErrorView>,
    pub log: Seq<Number>,
}

/// A run that ends with a value.
pub open spec fn value(v: ValueView, log: Seq<Number>) -> Run {
    Run { result: Ok(v), log }
}

/// A run that ends with the failure of an operator.
pub open spec fn fails(operator: TokenView, message: Seq<char>, log: Seq<Number>) -> Run {
    Run { result: Err(RuntimeErrorView { token: operator, message }), log }
}

/// A run that ends with the result of one more operation.
pub open spec fn performs(request: ArithmeticView, unit: Unit, log: Seq<Number>) -> Run {
    Run { result: Ok(ValueView::Number(unit(request))), log: log.push(unit(request)) }
}

/// The evaluation of an expression under a unit of arithmetic.
///
/// A literal has the value it holds, a number literal the rounding of its
/// decimal. A grouping has the value of what it holds. `!` negates the
/// truthiness of its operand; `-` negates a number. The arithmetic and
/// comparison operators take two numbers; `+` takes two numbers or two
/// strings; `==` and `!=` take any two values. Operands are evaluated from
/// left to right, and the first failure is the failure of the whole.
pub open spec fn evaluate(e: ExprView, unit: Unit) -> Run
    decreases e,
{
    match e {
        ExprView::Literal { value: literal } => match literal {
            None => value(ValueView::Nil, Seq::empty()),
            Some(LiteralView::Boolean(b)) => value(ValueView::Boolean(b), Seq::empty()),
            Some(LiteralView::Text(s)) => value(ValueView::Text(s), Seq::empty()),
            Some(LiteralView::Number(d)) => performs(ArithmeticView::Round(d), unit, Seq::empty()),
        },
        ExprView::Grouping { expression } => evaluate(*expression, unit),
        ExprView::Unary { operator, right } => {
            if operator.token_type == TokenType::Bang {
                let r = evaluate(*right, unit);
                match r.result {
                    Ok(v) => value(ValueView::Boolean(!truthy(v)), r.log),
                    Err(_) => r,
                }
            } else if operator.token_type == TokenType::Minus {
                let r = evaluate(*right, unit);
                match r.result {
                    Ok(ValueView::Number(n)) => value(ValueView::Number(n.negated_spec()), r.log),
                    Ok(_) => fails(operator, operand_message(), r.log),
                    Err(_) => r,
                }
            } else {
                fails(operator, unary_message(), Seq::empty())
            }
        },
        ExprView::Binary { left, operator, right } => {
            let t = operator.token_type;
            if is_rounded(t) || is_comparison(t) {
                let l = evaluate(*left, unit);
                match l.result {
                    Ok(ValueView::Number(a)) => {
                        let r = evaluate(*right, unit);
                        let log = l.log + r.log;
                        match r.result {
                            Ok(ValueView::Number(b)) => {
                                if is_comparison(t) {
                                    value(ValueView::Boolean(compare(t, a, b)), log)
                                } else {
                                    performs(operation(t, a, b), unit, log)
                                }
                            },
                            Ok(_) => fails(operator, operands_message(), log),
                            Err(e) => Run { result: Err(e), log },
                        }
                    },
                    Ok(_) => fails(operator, operands_message(), l.log),
                    Err(_) => l,
                }
            } else if t == TokenType::Plus {
                let l = evaluate(*left, unit);
                match l.result {
                    Ok(ValueView::Nil) => fails(operator, addition_message(), l.log),
                    Ok(a) => {
                        let r = evaluate(*right, unit);
                        let log = l.log + r.log;
                        match r.result {
                            Ok(b) => match (a, b) {
                                (ValueView::Number(x), ValueView::Number(y)) => performs(
                                    ArithmeticView::Add(x, y),
                                    unit,
                                    log,
                                ),
                                (ValueView::Text(x), ValueView::Text(y)) => value(
                                    ValueView::Text(x + y),
                                    log,
                                ),
                                _ => fails(operator, addition_message(), log),
                            },
                            Err(e) => Run { result: Err(e), log },
                        }
                    },
                    Err(_) => l,
                }
            } else if t == TokenType::EqualEqual || t == TokenType::BangEqual {
                let l = evaluate(*left, unit);
                match l.result {
                    Ok(a) => {
                        let r = evaluate(*right, unit);
                        let log = l.log + r.log;
                        match r.result {
                            Ok(b) => value(
                                ValueView::Boolean(
                                    values_equal(a, b) == (t == TokenType::EqualEqual),
                                ),
                                log,
                            ),
                            Err(e) => Run { result: Err(e), log },
                        }
                    },
                    Err(_) => l,
                }
            } else {
                fails(operator, binary_message(), Seq::empty())
            }
        },
    }
}

/// The outcome that a finished evaluation shows.
pub open spec fn finished(result: Result<ValueView, RuntimeErrorView>) -> OutcomeView {
    match result {
        Ok(v) => OutcomeView::Value(v),
        Err(e) => OutcomeView::Error(e),
    }
}

/// Whether `answers` holds the results of a run, as far as both reach.
pub open spec fn follows(answers: Seq<Number>, log: Seq<Number>) -> bool {
    forall|i: int| 0 <= i < answers.len() && i < log.len() ==> answers[i] == log[i]
}

/// What an evaluation against `answers` must come to, if `answers` follows
/// the run of `e` under `unit`: with all the results of the run it finishes as
/// the run does, having read them all; with fewer it names an operation whose
/// result under `unit` is the next of the run.
pub open spec fn led(e: ExprView, unit: Unit, answers: Seq<Number>) -> bool {
    let run = evaluate(e, unit);
    let trace = replay(e, answers);
    if answers.len() >= run.log.len() {
        trace == (Trace { outcome: finished(run.result), used: run.log.len() })
    } else {
        trace.outcome matches OutcomeView::Needs(request) && unit(request) == run.log[
            answers.len() as int
        ]
    }
}

/// An evaluation that is handed results which follow a run is led by it.
pub proof fn lemma_replay_follows(e: ExprView, unit: Unit, answers: Seq<Number>)
    requires
        follows(answers, evaluate(e, unit).log),
    ensures
        led(e, unit, answers),
    decreases e, 1nat,
{
    match e {
        ExprView::Literal { .. } => {},
        ExprView::Grouping { expression } => {
            lemma_replay_follows(*expression, unit, answers);
        },
        ExprView::Unary { operator, right } => {
            if operator.token_type == TokenType::Bang || operator.token_type == TokenType::Minus {
                lemma_replay_follows(*right, unit, answers);
            }
        },
        ExprView::Binary { operator, .. } => {
            let t = operator.token_type;
            if is_rounded(t) || is_comparison(t) || t == TokenType::Plus || t
                == TokenType::EqualEqual || t == TokenType::BangEqual {
                lemma_binary_follows(e, unit, answers);
            }
        },
    }
}

/// The step of [`lemma_replay_follows`] for a node with two operands: the
/// run of the whole begins with the run of the left operand, which the run
/// of the right operand follows if the left operand lets the evaluation go on.
proof fn lemma_binary_follows(e: ExprView, unit: Unit, answers: Seq<Number>)
    requires
        e matches ExprView::Binary { operator, .. } && ({
            let t = operator.token_type;
            is_rounded(t) || is_comparison(t) || t == TokenType::Plus || t == TokenType::EqualEqual
                || t == TokenType::BangEqual
        }),
        follows(answers, evaluate(e, unit).log),
    ensures
        led(e, unit, answers),
    decreases e, 0nat,
{
    let (left, operator, right) = match e {
        ExprView::Binary { left, operator, right } => (*left, operator, *right),
        _ => arbitrary(),
    };
    let t = operator.token_type;
    let l = evaluate(left, unit);
    let r = evaluate(right, unit);
    lemma_replay_follows(left, unit, answers);
    let goes_on = match l.result {
        Ok(ValueView::Number(_)) => true,
        Ok(ValueView::Nil) => t == TokenType::EqualEqual || t == TokenType::BangEqual,
        Ok(_) => !(is_rounded(t) || is_comparison(t)),
        Err(_) => false,
    };
    if answers.len() >= l.log.len() && goes_on {
        let rest = answers.skip(l.log.len() as int);
        assert(follows(rest, r.log));
        lemma_replay_follows(right, unit, rest);
    }
}

/// Whether `answers` is what a caller collects who starts with no results
/// and answers each operation that the evaluation names with the unit's
/// result for it.
pub open spec fn answered_by(e: ExprView, unit: Unit, answers: Seq<Number>) -> bool {
    forall|k: int|
        0 <= k < answers.len() ==> asked_and_answered(
            #[trigger] replay(e, answers.take(k)),
            unit,
            answers[k],
        )
}

/// Whether an evaluation stopped at an operation whose result under `unit`
/// is `result`.
pub open spec fn asked_and_answered(trace: Trace, unit: Unit, result: Number) -> bool {
    trace.outcome matches OutcomeView::Needs(request) && result == unit(request)
}

/// Results collected from a unit are the first results of the run under it.
proof fn lemma_answers_begin_log(e: ExprView, unit: Unit, answers: Seq<Number>, k: int)
    requires
        answered_by(e, unit, answers),
        0 <= k <= answers.len(),
    ensures
        k <= evaluate(e, unit).log.len(),
        forall|i: int| 0 <= i < k ==> answers[i] == evaluate(e, unit).log[i],
    decreases k,
{
    if k > 0 {
        lemma_answers_begin_log(e, unit, answers, k - 1);
        lemma_replay_follows(e, unit, answers.take(k - 1));
    }
}

/// Whether an outcome is the one that the run under `unit` leads to when
/// `answers` have been collected: the operation whose result comes next in
/// the run, while results are missing; else the value or the failure that
/// the expression has under the unit, the results being exactly those of the
/// run.
pub open spec fn agrees(
    e: ExprView,
    unit: Unit,
    answers: Seq<Number>,
    outcome: OutcomeView,
) -> bool {
    let run = evaluate(e, unit);
    match outcome {
        OutcomeView::Needs(request) => answers.len() < run.log.len() && unit(request) == run.log[
            answers.len() as int
        ],
        _ => outcome == finished(run.result) && answers == run.log,
    }
}

/// Soundness of the exchange: results collected from a unit lead `interpret`
/// along the run under that unit. While results are missing it names the
/// operation whose result comes next; once it finishes, it finishes with
/// the value or the failure that the expression has under the unit, and
/// the results are exactly those of the run.
pub proof fn lemma_interpret_sound(e: ExprView, unit: Unit, answers: Seq<Number>)
    requires
        answered_by(e, unit, answers),
    ensures
        answers.len() <= evaluate(e, unit).log.len(),
        agrees(e, unit, answers, replay(e, answers).outcome),
{
    lemma_answers_begin_log(e, unit, answers, answers.len() as int);
    lemma_replay_follows(e, unit, answers);
    if answers.len() >= evaluate(e, unit).log.len() {
        assert(answers =~= evaluate(e, unit).log);
    }
}

/// Evaluating an expression twice gives the same outcome: two exchanges
/// with the same unit that both finish collect the same results and end with
/// equal values or equal failures.
pub proof fn lemma_interpret_idempotent(
    e: ExprView,
    unit: Unit,
    first: Seq<Number>,
    second: Seq<Number>,
)
    requires
        answered_by(e, unit, first),
        answered_by(e, unit, second),
        !(replay(e, first).outcome is Needs),
        !(replay(e, second).outcome is Needs),
    ensures
        first == second,
        replay(e, first).outcome == replay(e, second).outcome,
        replay(e, first).outcome == finished(evaluate(e, unit).result),
{
    lemma_interpret_sound(e, unit, first);
    lemma_interpret_sound(e, unit, second);
}

/// The exchange ends: the results of the run under a unit, handed over in
/// full, finish the evaluation, and every shorter beginning of them is
/// answered with the operation that comes next.
pub proof fn lemma_interpret_complete(e: ExprView, unit: Unit, k: int)
    requires
        0 <= k <= evaluate(e, unit).log.len(),
    ensures
        answered_by(e, unit, evaluate(e, unit).log.take(k)),
        k == evaluate(e, unit).log.len() ==> replay(e, evaluate(e, unit).log).outcome == finished(
            evaluate(e, unit).result,
        ),
{
    let log = evaluate(e, unit).log;
    let answers = log.take(k);
    assert forall|j: int| 0 <= j < answers.len() implies asked_and_answered(
        #[trigger] replay(e, answers.take(j)),
        unit,
        answers[j],
    ) by {
        assert(answers.take(j) == log.take(j));
        lemma_replay_follows(e, unit, log.take(j));
    }
    if k == log.len() {
        lemma_replay_follows(e, unit, log);
    }
}

} // verus!
