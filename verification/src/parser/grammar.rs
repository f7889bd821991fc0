//! The grammar: what parsing a token stream yields, as a function of the
//! tokens alone.
//!
//! ```text
//! expression -> equality
//! equality   -> comparison ( ( "!=" | "==" ) comparison )*
//! comparison -> term ( ( ">" | ">=" | "<" | "<=" ) term )*
//! term       -> factor ( ( "-" | "+" ) factor )*
//! factor     -> unary ( ( "/" | "*" ) unary )*
//! unary      -> ( "!" | "-" ) unary | primary
//! primary    -> NUMBER | STRING | "true" | "false" | "nil" | "(" expression ")"
//! ```
use crate::parser::expr::ExprView;
use crate::scanner::token::{LiteralView, TokenType, TokenView};
use vstd::prelude::*;

verus! {

/// The four rules with binary operators, from the loosest to the tightest.
#[derive(Clone, Copy, Debug, PartialEq, Eq, Structural)]
pub enum Level {
    Equality,
    Comparison,
    Term,
    Factor,
}

impl Level {
    /// Whether a category is an operator of the rule.
    pub open spec fn has(self, t: TokenType) -> bool {
        match self {
            Level::Equality => t == TokenType::BangEqual || t == TokenType::EqualEqual,
            Level::Comparison => t == TokenType::Greater || t == TokenType::GreaterEqual || t
                == TokenType::Less || t == TokenType::LessEqual,
            Level::Term => t == TokenType::Minus || t == TokenType::Plus,
            Level::Factor => t == TokenType::Slash || t == TokenType::Star,
        }
    }

    /// How many rules bind at least as tightly.
    pub open spec fn depth(self) -> nat {
        match self {
            Level::Equality => 4,
            Level::Comparison => 3,
            Level::Term => 2,
            Level::Factor => 1,
        }
    }
}

/// What a [`ParseError`](crate::parser::ParseError) holds.
pub struct ParseErrorView {
    pub token: TokenView,
    pub message: Seq<char>,
}

/// The message where no expression begins.
pub open spec fn expression_message() -> Seq<char> {
    "Expect expression."@
}

/// The message where a parenthesis is not closed.
pub open spec fn paren_message() -> Seq<char> {
    "Expect ')' after expression."@
}

/// The result of parsing from one position: the expression or the error,
/// and the position of the first token that was not used.
pub struct Parsed {
    pub result: Result<ExprView, ParseErrorView>,
    pub next: int,
}

/// Whether the token at `pos` has the category `t`.
pub open spec fn check(ts: Seq<TokenView>, pos: int, t: TokenType) -> bool {
    0 <= pos < ts.len() && ts[pos].token_type == t
}

/// Whether the token at `pos` is an operator of the rule `level`.
pub open spec fn at_operator(ts: Seq<TokenView>, pos: int, level: Level) -> bool {
    0 <= pos < ts.len() && level.has(ts[pos].token_type)
}

/// The failure at the token at `pos`.
pub open spec fn error_at(ts: Seq<TokenView>, pos: int, message: Seq<char>) -> Parsed {
    Parsed { result: Err(ParseErrorView { token: ts[pos], message }), next: pos }
}

/// A literal node.
pub open spec fn literal(value: Option<LiteralView>, next: int) -> Parsed {
    Parsed { result: Ok(ExprView::Literal { value }), next }
}

/// `primary -> NUMBER | STRING | "true" | "false" | "nil" | "(" expression ")"`
pub open spec fn parse_primary(ts: Seq<TokenView>, pos: int) -> Parsed
    decreases ts.len() - pos, 0nat,
{
    if check(ts, pos, TokenType::False) {
        literal(Some(LiteralView::Boolean(false)), pos + 1)
    } else if check(ts, pos, TokenType::True) {
        literal(Some(LiteralView::Boolean(true)), pos + 1)
    } else if check(ts, pos, TokenType::Nil) {
        literal(None, pos + 1)
    } else if check(ts, pos, TokenType::Number) || check(ts, pos, TokenType::String) {
        literal(ts[pos].literal, pos + 1)
    } else if check(ts, pos, TokenType::LeftParen) {
        let inner = parse_binary(ts, pos + 1, Level::Equality);
        match inner.result {
            Ok(e) => {
                if check(ts, inner.next, TokenType::RightParen) {
                    Parsed {
                        result: Ok(ExprView::Grouping { expression: Box::new(e) }),
                        next: inner.next + 1,
                    }
                } else {
                    error_at(ts, inner.next, paren_message())
                }
            },
            Err(_) => inner,
        }
    } else {
        error_at(ts, pos, expression_message())
    }
}

/// `unary -> ( "!" | "-" ) unary | primary`
pub open spec fn parse_unary(ts: Seq<TokenView>, pos: int) -> Parsed
    decreases ts.len() - pos, 1nat,
{
    if check(ts, pos, TokenType::Bang) || check(ts, pos, TokenType::Minus) {
        let right = parse_unary(ts, pos + 1);
        match right.result {
            Ok(e) => Parsed {
                result: Ok(ExprView::Unary { operator: ts[pos], right: Box::new(e) }),
                next: right.next,
            },
            Err(_) => right,
        }
    } else {
        parse_primary(ts, pos)
    }
}

/// An operand of the rule `level`: an expression of the next tighter rule.
pub open spec fn parse_operand(ts: Seq<TokenView>, pos: int, level: Level) -> Parsed
    decreases ts.len() - pos, 2 * level.depth(),
{
    match level {
        Level::Equality => parse_binary(ts, pos, Level::Comparison),
        Level::Comparison => parse_binary(ts, pos, Level::Term),
        Level::Term => parse_binary(ts, pos, Level::Factor),
        Level::Factor => parse_unary(ts, pos),
    }
}

/// The rule `level`: an operand, then operators of the rule with an operand
/// each, which group to the left. An operand never ends before it began nor
/// behind the last token, so the operators are always looked for.
pub open spec fn parse_binary(ts: Seq<TokenView>, pos: int, level: Level) -> Parsed
    decreases ts.len() - pos, 2 * level.depth() + 1,
{
    let first = parse_operand(ts, pos, level);
    match first.result {
        Ok(left) => {
            if pos <= first.next <= ts.len() {
                parse_operators(ts, first.next, left, level)
            } else {
                first
            }
        },
        Err(_) => first,
    }
}

/// What follows an operand of the rule `level`: while an operator of the
/// rule stands next, it and the operand after it are joined to what was
/// read before, which becomes the left operand. An operand always ends behind
/// its operator and inside the token stream, so the rule always goes on.
pub open spec fn parse_operators(
    ts: Seq<TokenView>,
    pos: int,
    left: ExprView,
    level: Level,
) -> Parsed
    decreases ts.len() - pos, 2 * level.depth(),
{
    if at_operator(ts, pos, level) {
        let right = parse_operand(ts, pos + 1, level);
        match right.result {
            Ok(e) => {
                let joined = ExprView::Binary {
                    left: Box::new(left),
                    operator: ts[pos],
                    right: Box::new(e),
                };
                if pos < right.next <= ts.len() {
                    parse_operators(ts, right.next, joined, level)
                } else {
                    Parsed { result: Ok(joined), next: right.next }
                }
            },
            Err(_) => right,
        }
    } else {
        Parsed { result: Ok(left), next: pos }
    }
}

/// Whether a rule that began at `pos` stayed inside the token stream, and
/// used at least one token if it made an expression.
pub open spec fn in_bounds(ts: Seq<TokenView>, pos: int, parsed: Parsed) -> bool {
    &&& pos <= parsed.next <= ts.len()
    &&& parsed.result is Ok ==> pos < parsed.next
}

/// The rule `primary` stays inside the token stream and uses a token for
/// every expression it makes.
pub proof fn lemma_primary_in_bounds(ts: Seq<TokenView>, pos: int)
    requires
        0 <= pos <= ts.len(),
    ensures
        in_bounds(ts, pos, parse_primary(ts, pos)),
    decreases ts.len() - pos, 0nat,
{
    if check(ts, pos, TokenType::LeftParen) {
        lemma_binary_in_bounds(ts, pos + 1, Level::Equality);
    }
}

/// The rule `unary` stays inside the token stream and uses a token for every
/// expression it makes.
pub proof fn lemma_unary_in_bounds(ts: Seq<TokenView>, pos: int)
    requires
        0 <= pos <= ts.len(),
    ensures
        in_bounds(ts, pos, parse_unary(ts, pos)),
    decreases ts.len() - pos, 1nat,
{
    if check(ts, pos, TokenType::Bang) || check(ts, pos, TokenType::Minus) {
        lemma_unary_in_bounds(ts, pos + 1);
    } else {
        lemma_primary_in_bounds(ts, pos);
    }
}

/// An operand stays inside the token stream and uses a token for every
/// expression it makes.
pub proof fn lemma_operand_in_bounds(ts: Seq<TokenView>, pos: int, level: Level)
    requires
        0 <= pos <= ts.len(),
    ensures
        in_bounds(ts, pos, parse_operand(ts, pos, level)),
    decreases ts.len() - pos, 2 * level.depth(),
{
    match level {
        Level::Equality => lemma_binary_in_bounds(ts, pos, Level::Comparison),
        Level::Comparison => lemma_binary_in_bounds(ts, pos, Level::Term),
        Level::Term => lemma_binary_in_bounds(ts, pos, Level::Factor),
        Level::Factor => lemma_unary_in_bounds(ts, pos),
    }
}

/// A rule with binary operators stays inside the token stream and uses a
/// token for every expression it makes. The rules never stop for want of
/// progress: each operand that follows an operator ends behind it.
pub proof fn lemma_binary_in_bounds(ts: Seq<TokenView>, pos: int, level: Level)
    requires
        0 <= pos <= ts.len(),
    ensures
        in_bounds(ts, pos, parse_binary(ts, pos, level)),
    decreases ts.len() - pos, 2 * level.depth() + 1,
{
    lemma_operand_in_bounds(ts, pos, level);
    let first = parse_operand(ts, pos, level);
    if let Ok(left) = first.result {
        lemma_operators_in_bounds(ts, first.next, left, level);
    }
}

/// The operators that follow an operand stay inside the token stream.
pub proof fn lemma_operators_in_bounds(ts: Seq<TokenView>, pos: int, left: ExprView, level: Level)
    requires
        0 <= pos <= ts.len(),
    ensures
        pos <= parse_operators(ts, pos, left, level).next <= ts.len(),
    decreases ts.len() - pos, 2 * level.depth(),
{
    if at_operator(ts, pos, level) {
        lemma_operand_in_bounds(ts, pos + 1, level);
        let right = parse_operand(ts, pos + 1, level);
        if let Ok(e) = right.result {
            let joined = ExprView::Binary {
                left: Box::new(left),
                operator: ts[pos],
                right: Box::new(e),
            };
            lemma_operators_in_bounds(ts, right.next, joined, level);
        }
    }
}

/// A number or string token that no operator follows is an expression by
/// itself: the literal that holds the payload of the token.
pub proof fn lemma_parse_literal(ts: Seq<TokenView>, pos: int)
    requires
        0 <= pos < ts.len(),
        ts[pos].token_type == TokenType::Number || ts[pos].token_type == TokenType::String,
        pos + 1 < ts.len() ==> ts[pos + 1].token_type == TokenType::Eof,
    ensures
        parse_expression(ts, pos) == literal(ts[pos].literal, pos + 1),
{
    // Each rule finds the literal and no operator of its own behind it.
    let found = literal(ts[pos].literal, pos + 1);
    assert(parse_primary(ts, pos) == found);
    assert(parse_binary(ts, pos, Level::Factor) == found);
    assert(parse_binary(ts, pos, Level::Term) == found);
    assert(parse_binary(ts, pos, Level::Comparison) == found);
    assert(parse_operand(ts, pos, Level::Equality) == found);
}

/// `expression -> equality`
pub open spec fn parse_expression(ts: Seq<TokenView>, pos: int) -> Parsed {
    parse_binary(ts, pos, Level::Equality)
}

/// Whether a token stream is one that a scanner makes: it is not empty and
/// ends with the end-of-input token.
pub open spec fn ends_with_end(ts: Seq<TokenView>) -> bool {
    ts.len() > 0 && ts.last().token_type == TokenType::Eof
}

/// Whether a category begins a statement.
pub open spec fn begins_statement(t: TokenType) -> bool {
    t == TokenType::Class || t == TokenType::Fun || t == TokenType::Var || t == TokenType::For
        || t == TokenType::If || t == TokenType::While || t == TokenType::Print || t
        == TokenType::Return
}

/// Whether the parser is at the end: at the end-of-input token or past
/// the last token.
pub open spec fn at_end(ts: Seq<TokenView>, pos: int) -> bool {
    !(0 <= pos < ts.len()) || ts[pos].token_type == TokenType::Eof
}

/// Whether skipping stops at `pos`: at the end, behind a semicolon, or before
/// a token that begins a statement.
pub open spec fn is_boundary(ts: Seq<TokenView>, pos: int) -> bool {
    ||| pos < 1
    ||| at_end(ts, pos)
    ||| ts[pos - 1].token_type == TokenType::Semicolon
    ||| begins_statement(ts[pos].token_type)
}

/// Where skipping from `pos` stops: the first boundary at or behind `pos`.
pub open spec fn boundary(ts: Seq<TokenView>, pos: int) -> int
    decreases ts.len() - pos,
{
    if is_boundary(ts, pos) {
        pos
    } else {
        boundary(ts, pos + 1)
    }
}

/// Skipping stops at a boundary, and at the first one: no position that it
/// passes is a boundary.
pub proof fn lemma_boundary_is_first(ts: Seq<TokenView>, pos: int)
    ensures
        pos <= boundary(ts, pos),
        is_boundary(ts, boundary(ts, pos)),
        forall|p: int| pos <= p < boundary(ts, pos) ==> !is_boundary(ts, p),
    decreases ts.len() - pos,
{
    if !is_boundary(ts, pos) {
        lemma_boundary_is_first(ts, pos + 1);
    }
}

} // verus!
