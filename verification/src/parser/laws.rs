//! What holds of every parse: an expression that was parsed reads, from
//! left to right, as the tokens that it was parsed from, and it is grouped
//! as the rules bind; and every expression that is grouped so is what its
//! tokens are parsed to. The two together say that parsing is the inverse
//! of writing an expression down.
use crate::parser::expr::ExprView;
use crate::parser::grammar::{
    Level, ParseErrorView, Parsed, at_operator, check, lemma_binary_in_bounds,
    lemma_operand_in_bounds, lemma_primary_in_bounds, lemma_unary_in_bounds, parse_binary,
    parse_expression, parse_operand, parse_operators, parse_primary, parse_unary,
};
use crate::scanner::token::{LiteralView, TokenType, TokenView};
use vstd::prelude::*;

verus! {

/// Whether a category is a binary operator of the grammar.
pub open spec fn is_binary_operator(t: TokenType) -> bool {
    Level::Equality.has(t) || Level::Comparison.has(t) || Level::Term.has(t) || Level::Factor.has(
        t,
    )
}

/// Whether a token writes the literal that holds `value`: `false` and
/// `true` write the booleans, `nil` writes the literal that holds nothing,
/// and a number or string token writes what it carries.
pub open spec fn writes_literal(token: TokenView, value: Option<LiteralView>) -> bool {
    match token.token_type {
        TokenType::False => value == Some(LiteralView::Boolean(false)),
        TokenType::True => value == Some(LiteralView::Boolean(true)),
        TokenType::Nil => value is None,
        TokenType::Number | TokenType::String => value == token.literal,
        _ => false,
    }
}

/// Whether the tokens `ts` write the expression `e`: a literal is written
/// by its one token, a grouping by its expression in parentheses, a unary
/// node by its operator and then its operand, a binary node by its left
/// operand, its operator and its right operand.
pub open spec fn writes(ts: Seq<TokenView>, e: ExprView) -> bool
    decreases e,
{
    match e {
        ExprView::Literal { value } => ts.len() == 1 && writes_literal(ts[0], value),
        ExprView::Grouping { expression } => {
            &&& ts.len() >= 2
            &&& ts[0].token_type == TokenType::LeftParen
            &&& ts[ts.len() - 1].token_type == TokenType::RightParen
            &&& writes(ts.subrange(1, ts.len() - 1), *expression)
        },
        ExprView::Unary { operator, right } => {
            &&& ts.len() >= 1
            &&& ts[0] == operator
            &&& (operator.token_type == TokenType::Bang || operator.token_type == TokenType::Minus)
            &&& writes(ts.skip(1), *right)
        },
        ExprView::Binary { left, operator, right } => exists|k: int|
            {
                &&& 0 <= k < ts.len()
                &&& ts[k] == operator
                &&& is_binary_operator(operator.token_type)
                &&& writes(#[trigger] ts.take(k), *left)
                &&& writes(ts.skip(k + 1), *right)
            },
    }
}

/// What a rule promises that began at `pos` and ended at `next` with the
/// result `result`: if it made an expression, the tokens that it used write
/// that expression.
pub open spec fn faithful(
    ts: Seq<TokenView>,
    pos: int,
    next: int,
    result: Result<ExprView, ParseErrorView>,
) -> bool {
    result matches Ok(e) ==> pos <= next <= ts.len() && writes(ts.subrange(pos, next), e)
}

/// The rule `primary` makes only expressions that the tokens it used write.
pub proof fn lemma_primary_is_faithful(ts: Seq<TokenView>, pos: int)
    requires
        0 <= pos <= ts.len(),
    ensures
        faithful(ts, pos, parse_primary(ts, pos).next, parse_primary(ts, pos).result),
    decreases ts.len() - pos, 0nat,
{
    lemma_primary_in_bounds(ts, pos);
    let parsed = parse_primary(ts, pos);
    if check(ts, pos, TokenType::LeftParen) {
        let inner = parse_binary(ts, pos + 1, Level::Equality);
        lemma_binary_in_bounds(ts, pos + 1, Level::Equality);
        lemma_binary_is_faithful(ts, pos + 1, Level::Equality);
        if inner.result is Ok && check(ts, inner.next, TokenType::RightParen) {
            let used = ts.subrange(pos, parsed.next);
            assert(used.subrange(1, used.len() - 1) == ts.subrange(pos + 1, inner.next));
        }
    }
}

/// The rule `unary` makes only expressions that the tokens it used write.
pub proof fn lemma_unary_is_faithful(ts: Seq<TokenView>, pos: int)
    requires
        0 <= pos <= ts.len(),
    ensures
        faithful(ts, pos, parse_unary(ts, pos).next, parse_unary(ts, pos).result),
    decreases ts.len() - pos, 1nat,
{
    lemma_unary_in_bounds(ts, pos);
    if check(ts, pos, TokenType::Bang) || check(ts, pos, TokenType::Minus) {
        let right = parse_unary(ts, pos + 1);
        lemma_unary_in_bounds(ts, pos + 1);
        lemma_unary_is_faithful(ts, pos + 1);
        if right.result is Ok {
            assert(ts.subrange(pos, right.next).skip(1) == ts.subrange(pos + 1, right.next));
        }
    } else {
        lemma_primary_is_faithful(ts, pos);
    }
}

/// An operand is an expression that the tokens it used write.
pub proof fn lemma_operand_is_faithful(ts: Seq<TokenView>, pos: int, level: Level)
    requires
        0 <= pos <= ts.len(),
    ensures
        faithful(
            ts,
            pos,
            parse_operand(ts, pos, level).next,
            parse_operand(ts, pos, level).result,
        ),
    decreases ts.len() - pos, 2 * level.depth(),
{
    match level {
        Level::Equality => lemma_binary_is_faithful(ts, pos, Level::Comparison),
        Level::Comparison => lemma_binary_is_faithful(ts, pos, Level::Term),
        Level::Term => lemma_binary_is_faithful(ts, pos, Level::Factor),
        Level::Factor => lemma_unary_is_faithful(ts, pos),
    }
}

/// A rule with binary operators makes only expressions that the tokens it
/// used write.
pub proof fn lemma_binary_is_faithful(ts: Seq<TokenView>, pos: int, level: Level)
    requires
        0 <= pos <= ts.len(),
    ensures
        faithful(ts, pos, parse_binary(ts, pos, level).next, parse_binary(ts, pos, level).result),
    decreases ts.len() - pos, 2 * level.depth() + 1,
{
    lemma_operand_in_bounds(ts, pos, level);
    lemma_operand_is_faithful(ts, pos, level);
    let first = parse_operand(ts, pos, level);
    if let Ok(left) = first.result {
        lemma_operators_are_faithful(ts, pos, first.next, left, level);
    }
}

/// Joining operators and operands to an expression that the tokens from
/// `start` to `pos` write makes an expression that the tokens from `start`
/// to the end of the rule write.
pub proof fn lemma_operators_are_faithful(
    ts: Seq<TokenView>,
    start: int,
    pos: int,
    left: ExprView,
    level: Level,
)
    requires
        0 <= start <= pos <= ts.len(),
        writes(ts.subrange(start, pos), left),
    ensures
        faithful(
            ts,
            start,
            parse_operators(ts, pos, left, level).next,
            parse_operators(ts, pos, left, level).result,
        ),
    decreases ts.len() - pos, 2 * level.depth(),
{
    if at_operator(ts, pos, level) {
        lemma_operand_in_bounds(ts, pos + 1, level);
        lemma_operand_is_faithful(ts, pos + 1, level);
        let right = parse_operand(ts, pos + 1, level);
        if let Ok(e) = right.result {
            let joined = ExprView::Binary {
                left: Box::new(left),
                operator: ts[pos],
                right: Box::new(e),
            };
            // The operator stands between what writes the two operands.
            let used = ts.subrange(start, right.next);
            let k = pos - start;
            assert(used.take(k) == ts.subrange(start, pos));
            assert(used.skip(k + 1) == ts.subrange(pos + 1, right.next));
            assert(used[k] == ts[pos]);
            assert(writes(used, joined));
            lemma_operators_are_faithful(ts, start, right.next, joined, level);
        }
    }
}

/// Parsing is faithful: every expression that is parsed is written by
/// exactly the tokens that were used for it, in their order. The parser
/// neither drops nor invents nor moves a token.
pub proof fn lemma_parse_is_faithful(ts: Seq<TokenView>, pos: int)
    requires
        0 <= pos <= ts.len(),
    ensures
        parse_expression(ts, pos).result matches Ok(e) ==> pos < parse_expression(ts, pos).next
            <= ts.len() && writes(ts.subrange(pos, parse_expression(ts, pos).next), e),
{
    lemma_binary_in_bounds(ts, pos, Level::Equality);
    lemma_binary_is_faithful(ts, pos, Level::Equality);
}

/// How tightly a rule binds: the rules with binary operators from 1 for
/// equality to 4 for factors.
pub open spec fn binding(level: Level) -> nat {
    match level {
        Level::Equality => 1,
        Level::Comparison => 2,
        Level::Term => 3,
        Level::Factor => 4,
    }
}

/// How tightly a binary operator binds; 0 for a category that is none.
pub open spec fn operator_binding(t: TokenType) -> nat {
    if Level::Equality.has(t) {
        1
    } else if Level::Comparison.has(t) {
        2
    } else if Level::Term.has(t) {
        3
    } else if Level::Factor.has(t) {
        4
    } else {
        0
    }
}

/// How tightly an expression is held together: a binary node as its
/// operator binds, a unary node tighter than any of them, and a literal or a
/// grouping tightest.
pub open spec fn tightness(e: ExprView) -> nat {
    match e {
        ExprView::Binary { operator, .. } => operator_binding(operator.token_type),
        ExprView::Unary { .. } => 5,
        _ => 6,
    }
}

/// Whether an expression is grouped as the rules bind: the operand of a
/// unary node is a unary node, a literal or a grouping; the right operand of
/// a binary node is held together tighter than its operator binds, and the
/// left operand at least as tightly, so that operators of one rule group to
/// the left; and so on to the leaves. What stands in parentheses is grouped
/// the same way, however loosely it is held together.
pub open spec fn grouped(e: ExprView) -> bool
    decreases e,
{
    match e {
        ExprView::Literal { .. } => true,
        ExprView::Grouping { expression } => grouped(*expression),
        ExprView::Unary { right, .. } => tightness(*right) >= 5 && grouped(*right),
        ExprView::Binary { left, operator, right } => {
            let b = operator_binding(operator.token_type);
            &&& b >= 1
            &&& tightness(*left) >= b
            &&& tightness(*right) > b
            &&& grouped(*left)
            &&& grouped(*right)
        },
    }
}

/// Whether a result, if it is an expression, is grouped as the rules bind
/// and held together at least as tightly as `least`.
pub open spec fn bound(
    result: Result<ExprView, ParseErrorView>,
    least: nat,
) -> bool {
    result matches Ok(e) ==> grouped(e) && tightness(e) >= least
}

/// The rule `primary` makes literals and groupings.
pub proof fn lemma_primary_is_grouped(ts: Seq<TokenView>, pos: int)
    requires
        0 <= pos <= ts.len(),
    ensures
        bound(parse_primary(ts, pos).result, 6),
    decreases ts.len() - pos, 0nat,
{
    if check(ts, pos, TokenType::LeftParen) {
        lemma_binary_is_grouped(ts, pos + 1, Level::Equality);
    }
}

/// The rule `unary` makes unary nodes, literals and groupings.
pub proof fn lemma_unary_is_grouped(ts: Seq<TokenView>, pos: int)
    requires
        0 <= pos <= ts.len(),
    ensures
        bound(parse_unary(ts, pos).result, 5),
    decreases ts.len() - pos, 1nat,
{
    if check(ts, pos, TokenType::Bang) || check(ts, pos, TokenType::Minus) {
        lemma_unary_is_grouped(ts, pos + 1);
    } else {
        lemma_primary_is_grouped(ts, pos);
    }
}

/// An operand of a rule is held together tighter than the rule binds.
pub proof fn lemma_operand_is_grouped(ts: Seq<TokenView>, pos: int, level: Level)
    requires
        0 <= pos <= ts.len(),
    ensures
        bound(parse_operand(ts, pos, level).result, binding(level) + 1),
    decreases ts.len() - pos, 2 * level.depth(),
{
    match level {
        Level::Equality => lemma_binary_is_grouped(ts, pos, Level::Comparison),
        Level::Comparison => lemma_binary_is_grouped(ts, pos, Level::Term),
        Level::Term => lemma_binary_is_grouped(ts, pos, Level::Factor),
        Level::Factor => lemma_unary_is_grouped(ts, pos),
    }
}

/// A rule with binary operators makes expressions that are held together
/// at least as tightly as the rule binds.
pub proof fn lemma_binary_is_grouped(ts: Seq<TokenView>, pos: int, level: Level)
    requires
        0 <= pos <= ts.len(),
    ensures
        bound(parse_binary(ts, pos, level).result, binding(level)),
    decreases ts.len() - pos, 2 * level.depth() + 1,
{
    lemma_operand_in_bounds(ts, pos, level);
    lemma_operand_is_grouped(ts, pos, level);
    let first = parse_operand(ts, pos, level);
    if let Ok(left) = first.result {
        lemma_operators_are_grouped(ts, first.next, left, level);
    }
}

/// Joining operators of a rule and operands to an expression that is held
/// together at least as tightly as the rule binds makes such an expression
/// again: the expression becomes the left operand.
pub proof fn lemma_operators_are_grouped(
    ts: Seq<TokenView>,
    pos: int,
    left: ExprView,
    level: Level,
)
    requires
        0 <= pos <= ts.len(),
        grouped(left),
        tightness(left) >= binding(level),
    ensures
        bound(parse_operators(ts, pos, left, level).result, binding(level)),
    decreases ts.len() - pos, 2 * level.depth(),
{
    if at_operator(ts, pos, level) {
        lemma_operand_in_bounds(ts, pos + 1, level);
        lemma_operand_is_grouped(ts, pos + 1, level);
        let right = parse_operand(ts, pos + 1, level);
        if let Ok(e) = right.result {
            let joined = ExprView::Binary {
                left: Box::new(left),
                operator: ts[pos],
                right: Box::new(e),
            };
            assert(operator_binding(ts[pos].token_type) == binding(level));
            lemma_operators_are_grouped(ts, right.next, joined, level);
        }
    }
}

/// Parsing groups as the rules bind: in every expression that is parsed,
/// tighter operators stand below looser ones unless parentheses say
/// otherwise, and operators of one rule group to the left.
pub proof fn lemma_parse_is_grouped(ts: Seq<TokenView>, pos: int)
    requires
        0 <= pos <= ts.len(),
    ensures
        parse_expression(ts, pos).result matches Ok(e) ==> grouped(e),
{
    lemma_binary_is_grouped(ts, pos, Level::Equality);
}

/// Whether the token at `end` is a binary operator that binds tighter than
/// `least`.
pub open spec fn tighter_follows(ts: Seq<TokenView>, end: int, least: nat) -> bool {
    0 <= end < ts.len() && operator_binding(ts[end].token_type) > least
}

/// The expression `e`, found to end at `end`.
pub open spec fn found(e: ExprView, end: int) -> Parsed {
    Parsed { result: Ok(e), next: end }
}

/// The tokens that write a literal or a grouping are parsed to it by the
/// rule `primary`.
pub proof fn lemma_primary_is_complete(ts: Seq<TokenView>, start: int, end: int, e: ExprView)
    requires
        0 <= start <= end <= ts.len(),
        writes(ts.subrange(start, end), e),
        grouped(e),
        tightness(e) >= 6,
    ensures
        parse_primary(ts, start) == found(e, end),
    decreases e, 1nat,
{
    let used = ts.subrange(start, end);
    assert(used[0] == ts[start]);
    match e {
        ExprView::Grouping { expression } => {
            assert(used[used.len() - 1] == ts[end - 1]);
            assert(used.subrange(1, used.len() - 1) == ts.subrange(start + 1, end - 1));
            lemma_expression_is_complete(ts, start + 1, end - 1, *expression);
        },
        _ => {},
    }
}

/// The tokens that write a unary node, a literal or a grouping are parsed to
/// it by the rule `unary`.
pub proof fn lemma_unary_is_complete(ts: Seq<TokenView>, start: int, end: int, e: ExprView)
    requires
        0 <= start <= end <= ts.len(),
        writes(ts.subrange(start, end), e),
        grouped(e),
        tightness(e) >= 5,
    ensures
        parse_unary(ts, start) == found(e, end),
    decreases e, 2nat,
{
    let used = ts.subrange(start, end);
    assert(used[0] == ts[start]);
    match e {
        ExprView::Unary { operator, right } => {
            assert(used.skip(1) == ts.subrange(start + 1, end));
            lemma_unary_is_complete(ts, start + 1, end, *right);
        },
        _ => {
            lemma_primary_is_complete(ts, start, end, e);
        },
    }
}

/// The tokens that write an expression which is held together tighter than
/// a rule binds are parsed to it as an operand of the rule, unless an
/// operator follows that binds tighter than the rule.
pub proof fn lemma_operand_is_complete(
    ts: Seq<TokenView>,
    start: int,
    end: int,
    e: ExprView,
    level: Level,
)
    requires
        0 <= start <= end <= ts.len(),
        writes(ts.subrange(start, end), e),
        grouped(e),
        tightness(e) > binding(level),
        !tighter_follows(ts, end, binding(level)),
    ensures
        parse_operand(ts, start, level) == found(e, end),
    decreases e, 2 * level.depth() + 1,
{
    match level {
        Level::Equality => lemma_binary_is_complete(ts, start, end, e, Level::Comparison),
        Level::Comparison => lemma_binary_is_complete(ts, start, end, e, Level::Term),
        Level::Term => lemma_binary_is_complete(ts, start, end, e, Level::Factor),
        Level::Factor => lemma_unary_is_complete(ts, start, end, e),
    }
}

/// The tokens that write an expression which is held together at least as
/// tightly as a rule binds are parsed to it by the rule, and the rule then
/// goes on with the operators that follow, unless an operator follows that
/// binds tighter than the rule.
pub proof fn lemma_binary_is_complete(
    ts: Seq<TokenView>,
    start: int,
    end: int,
    e: ExprView,
    level: Level,
)
    requires
        0 <= start <= end <= ts.len(),
        writes(ts.subrange(start, end), e),
        grouped(e),
        tightness(e) >= binding(level),
        !tighter_follows(ts, end, binding(level)),
    ensures
        parse_binary(ts, start, level) == parse_operators(ts, end, e, level),
    decreases e, 2 * level.depth() + 2,
{
    let used = ts.subrange(start, end);
    if tightness(e) > binding(level) {
        lemma_operand_is_complete(ts, start, end, e, level);
    } else {
        match e {
            ExprView::Binary { left, operator, right } => {
                let k = choose|k: int|
                    {
                        &&& 0 <= k < used.len()
                        &&& used[k] == operator
                        &&& is_binary_operator(operator.token_type)
                        &&& writes(#[trigger] used.take(k), *left)
                        &&& writes(used.skip(k + 1), *right)
                    };
                let middle = start + k;
                assert(used.take(k) == ts.subrange(start, middle));
                assert(used.skip(k + 1) == ts.subrange(middle + 1, end));
                assert(used[k] == ts[middle]);
                // The left operand is parsed first; its operator follows it.
                lemma_binary_is_complete(ts, start, middle, *left, level);
                // The right operand is an operand of the rule.
                lemma_operand_is_complete(ts, middle + 1, end, *right, level);
                assert(at_operator(ts, middle, level));
            },
            _ => {},
        }
    }
}

/// The tokens that write an expression are parsed to it, unless a binary
/// operator follows them.
pub proof fn lemma_expression_is_complete(ts: Seq<TokenView>, start: int, end: int, e: ExprView)
    requires
        0 <= start <= end <= ts.len(),
        writes(ts.subrange(start, end), e),
        grouped(e),
        !tighter_follows(ts, end, 0),
    ensures
        parse_expression(ts, start) == found(e, end),
    decreases e, 11nat,
{
    if tightness(e) >= 1 {
        lemma_binary_is_complete(ts, start, end, e, Level::Equality);
    }
}

/// Parsing is complete: an expression that is grouped as the rules bind is
/// what the tokens that write it are parsed to, wherever they stand in a
/// token stream, if no binary operator follows them. With
/// [`lemma_parse_is_faithful`] and [`lemma_parse_is_grouped`]: the tokens
/// from `start` to `end` are parsed to `e` exactly if they write `e`
/// and `e` is grouped as the rules bind.
pub proof fn lemma_parse_is_complete(ts: Seq<TokenView>, start: int, end: int, e: ExprView)
    requires
        0 <= start <= end <= ts.len(),
        !tighter_follows(ts, end, 0),
    ensures
        parse_expression(ts, start) == found(e, end) <==> writes(ts.subrange(start, end), e)
            && grouped(e),
{
    if writes(ts.subrange(start, end), e) && grouped(e) {
        lemma_expression_is_complete(ts, start, end, e);
    }
    if parse_expression(ts, start) == found(e, end) {
        lemma_parse_is_faithful(ts, start);
        lemma_parse_is_grouped(ts, start);
    }
}

} // verus!
