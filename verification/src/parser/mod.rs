//! The parser: from tokens to an expression tree, and the evaluation of a tree.
//!
//! The parser is a recursive descent over the token stream with one token of
//! lookahead. Each rule of the grammar is one method; the rules with binary
//! operators share one loop, which builds trees that group to the left.
pub mod expr;
pub mod grammar;
pub mod laws;
pub mod semantics;
pub mod value;

pub use self::expr::{Expr, ExprView};
pub use self::grammar::{Level, ParseErrorView, Parsed};
pub use self::value::{Arithmetic, Outcome, RuntimeError, Value};

use self::grammar::{
    at_end, at_operator, boundary, check, ends_with_end, parse_binary, parse_expression,
    parse_operand, parse_operators, parse_primary, parse_unary,
};
use crate::scanner::token::{Literal, Token, TokenType, TokenView, token_views};
use vstd::prelude::*;

verus! {

/// A token stream that is no expression: what was expected, and the token at
/// which it was missing.
#[derive(Debug)]
pub struct ParseError {
    pub token: Token,
    pub message: String,
}

impl View for ParseError {
    type V = ParseErrorView;

    open spec fn view(&self) -> ParseErrorView {
        ParseErrorView { token: self.token@, message: self.message@ }
    }
}

/// The view of the result of a rule.
pub open spec fn result_view(r: Result<Expr, ParseError>) -> Result<ExprView, ParseErrorView> {
    match r {
        Ok(e) => Ok(e@),
        Err(e) => Err(e@),
    }
}

/// A parser over one token stream.
pub struct Parser {
    tokens: Vec<Token>,
    current: usize,
}

impl Parser {
    /// The token stream ends with the end-of-input token, and the parser
    /// stands at one of its tokens.
    pub closed spec fn wf(&self) -> bool {
        &&& ends_with_end(token_views(self.tokens@))
        &&& self.current < self.tokens@.len()
    }

    /// The token stream.
    pub closed spec fn stream(&self) -> Seq<TokenView> {
        token_views(self.tokens@)
    }

    /// The position of the next token.
    pub closed spec fn position(&self) -> int {
        self.current as int
    }

    /// A parser at the beginning of `tokens`.
    pub fn new(tokens: Vec<Token>) -> (p: Parser)
        requires
            ends_with_end(token_views(tokens@)),
        ensures
            p.wf(),
            p.stream() == token_views(tokens@),
            p.position() == 0,
    {
        Parser { tokens, current: 0 }
    }

    /// Parses one expression from the current position.
    ///
    /// The result is the expression that the grammar gives the tokens from
    /// that position on, and the parser then stands behind it; or, where the
    /// tokens are no expression, the first failure, and the parser stands
    /// at the token at which it failed.
    pub fn parse(&mut self) -> (r: Result<Expr, ParseError>)
        requires
            old(self).wf(),
        ensures
            final(self).wf(),
            final(self).stream() == old(self).stream(),
            result_view(r) == parse_expression(old(self).stream(), old(self).position()).result,
            final(self).position() == parse_expression(
                old(self).stream(),
                old(self).position(),
            ).next,
    {
        self.expression()
    }

    /// The rule `level`.
    fn binary(&mut self, level: Level) -> (r: Result<Expr, ParseError>)
        requires
            old(self).wf(),
        ensures
            final(self).wf(),
            final(self).tokens == old(self).tokens,
            final(self).current >= old(self).current,
            result_view(r) == parse_binary(
                token_views(old(self).tokens@),
                old(self).current as int,
                level,
            ).result,
            final(self).current == parse_binary(
                token_views(old(self).tokens@),
                old(self).current as int,
                level,
            ).next,
        decreases old(self).tokens@.len() - old(self).current, 3 * level.depth() + 1,
    {
        let ghost ts = token_views(self.tokens@);
        let mut expr: Expr = match self.operand(level) {
            Ok(e) => e,
            Err(e) => {
                return Err(e);
            },
        };
        while self.is_operator(level)
            invariant
                self.wf(),
                self.tokens == old(self).tokens,
                ts == token_views(self.tokens@),
                self.current >= old(self).current,
                parse_operators(ts, self.current as int, expr@, level) == parse_binary(
                    ts,
                    old(self).current as int,
                    level,
                ),
            decreases self.tokens@.len() - self.current,
        {
            let operator: Token = self.previous().clone();
            let right: Expr = match self.operand(level) {
                Ok(e) => e,
                Err(e) => {
                    return Err(e);
                },
            };
            expr = Expr::Binary { left: Box::new(expr), operator, right: Box::new(right) };
        }
        Ok(expr)
    }

    /// An operand of the rule `level`.
    fn operand(&mut self, level: Level) -> (r: Result<Expr, ParseError>)
        requires
            old(self).wf(),
        ensures
            final(self).wf(),
            final(self).tokens == old(self).tokens,
            final(self).current >= old(self).current,
            result_view(r) == parse_operand(
                token_views(old(self).tokens@),
                old(self).current as int,
                level,
            ).result,
            final(self).current == parse_operand(
                token_views(old(self).tokens@),
                old(self).current as int,
                level,
            ).next,
        decreases old(self).tokens@.len() - old(self).current, 3 * level.depth(),
    {
        match level {
            Level::Equality => self.comparison(),
            Level::Comparison => self.term(),
            Level::Term => self.factor(),
            Level::Factor => self.unary(),
        }
    }

    /// `expression -> equality`
    fn expression(&mut self) -> (r: Result<Expr, ParseError>)
        requires
            old(self).wf(),
        ensures
            final(self).wf(),
            final(self).tokens == old(self).tokens,
            final(self).current >= old(self).current,
            result_view(r) == parse_binary(
                token_views(old(self).tokens@),
                old(self).current as int,
                Level::Equality,
            ).result,
            final(self).current == parse_binary(
                token_views(old(self).tokens@),
                old(self).current as int,
                Level::Equality,
            ).next,
        decreases old(self).tokens@.len() - old(self).current, 15nat,
    {
        self.equality()
    }

    /// `equality -> comparison ( ( "!=" | "==" ) comparison )*`
    fn equality(&mut self) -> (r: Result<Expr, ParseError>)
        requires
            old(self).wf(),
        ensures
            final(self).wf(),
            final(self).tokens == old(self).tokens,
            final(self).current >= old(self).current,
            result_view(r) == parse_binary(
                token_views(old(self).tokens@),
                old(self).current as int,
                Level::Equality,
            ).result,
            final(self).current == parse_binary(
                token_views(old(self).tokens@),
                old(self).current as int,
                Level::Equality,
            ).next,
        decreases old(self).tokens@.len() - old(self).current, 14nat,
    {
        self.binary(Level::Equality)
    }

    /// `comparison -> term ( ( ">" | ">=" | "<" | "<=" ) term )*`
    fn comparison(&mut self) -> (r: Result<Expr, ParseError>)
        requires
            old(self).wf(),
        ensures
            final(self).wf(),
            final(self).tokens == old(self).tokens,
            final(self).current >= old(self).current,
            result_view(r) == parse_binary(
                token_views(old(self).tokens@),
                old(self).current as int,
                Level::Comparison,
            ).result,
            final(self).current == parse_binary(
                token_views(old(self).tokens@),
                old(self).current as int,
                Level::Comparison,
            ).next,
        decreases old(self).tokens@.len() - old(self).current, 11nat,
    {
        self.binary(Level::Comparison)
    }

    /// `term -> factor ( ( "-" | "+" ) factor )*`
    fn term(&mut self) -> (r: Result<Expr, ParseError>)
        requires
            old(self).wf(),
        ensures
            final(self).wf(),
            final(self).tokens == old(self).tokens,
            final(self).current >= old(self).current,
            result_view(r) == parse_binary(
                token_views(old(self).tokens@),
                old(self).current as int,
                Level::Term,
            ).result,
            final(self).current == parse_binary(
                token_views(old(self).tokens@),
                old(self).current as int,
                Level::Term,
            ).next,
        decreases old(self).tokens@.len() - old(self).current, 8nat,
    {
        self.binary(Level::Term)
    }

    /// `factor -> unary ( ( "/" | "*" ) unary )*`
    fn factor(&mut self) -> (r: Result<Expr, ParseError>)
        requires
            old(self).wf(),
        ensures
            final(self).wf(),
            final(self).tokens == old(self).tokens,
            final(self).current >= old(self).current,
            result_view(r) == parse_binary(
                token_views(old(self).tokens@),
                old(self).current as int,
                Level::Factor,
            ).result,
            final(self).current == parse_binary(
                token_views(old(self).tokens@),
                old(self).current as int,
                Level::Factor,
            ).next,
        decreases old(self).tokens@.len() - old(self).current, 5nat,
    {
        self.binary(Level::Factor)
    }

    /// `unary -> ( "!" | "-" ) unary | primary`
    fn unary(&mut self) -> (r: Result<Expr, ParseError>)
        requires
            old(self).wf(),
        ensures
            final(self).wf(),
            final(self).tokens == old(self).tokens,
            final(self).current >= old(self).current,
            result_view(r) == parse_unary(
                token_views(old(self).tokens@),
                old(self).current as int,
            ).result,
            final(self).current == parse_unary(
                token_views(old(self).tokens@),
                old(self).current as int,
            ).next,
        decreases old(self).tokens@.len() - old(self).current, 1nat,
    {
        if self.is_match(&[TokenType::Bang, TokenType::Minus]) {
            let operator: Token = self.previous().clone();
            let right: Expr = match self.unary() {
                Ok(e) => e,
                Err(e) => {
                    return Err(e);
                },
            };
            return Ok(Expr::Unary { operator, right: Box::new(right) });
        }
        self.primary()
    }

    /// `primary -> NUMBER | STRING | "true" | "false" | "nil" | "(" expression ")"`
    fn primary(&mut self) -> (r: Result<Expr, ParseError>)
        requires
            old(self).wf(),
        ensures
            final(self).wf(),
            final(self).tokens == old(self).tokens,
            final(self).current >= old(self).current,
            result_view(r) == parse_primary(
                token_views(old(self).tokens@),
                old(self).current as int,
            ).result,
            final(self).current == parse_primary(
                token_views(old(self).tokens@),
                old(self).current as int,
            ).next,
        decreases old(self).tokens@.len() - old(self).current, 0nat,
    {
        if self.is_match(&[TokenType::False]) {
            Ok(Expr::Literal { value: Some(Literal::Boolean(false)) })
        } else if self.is_match(&[TokenType::True]) {
            Ok(Expr::Literal { value: Some(Literal::Boolean(true)) })
        } else if self.is_match(&[TokenType::Nil]) {
            Ok(Expr::Literal { value: None })
        } else if self.is_match(&[TokenType::Number, TokenType::String]) {
            let value: Option<Literal> = match &self.previous().literal {
                Some(l) => Some(l.clone()),
                None => None,
            };
            Ok(Expr::Literal { value })
        } else if self.is_match(&[TokenType::LeftParen]) {
            let expr: Expr = match self.expression() {
                Ok(e) => e,
                Err(e) => {
                    return Err(e);
                },
            };
            match self.consume(TokenType::RightParen, "Expect ')' after expression.") {
                Ok(_) => Ok(Expr::Grouping { expression: Box::new(expr) }),
                Err(e) => Err(e),
            }
        } else {
            Err(self.error(self.peek(), "Expect expression."))
        }
    }

    /// Passes the next token if it has the category `token_type`; fails with
    /// `message` if it has not.
    fn consume(&mut self, token_type: TokenType, message: &str) -> (r: Result<(), ParseError>)
        requires
            old(self).wf(),
            token_type != TokenType::Eof,
        ensures
            final(self).wf(),
            final(self).tokens == old(self).tokens,
            match r {
                Ok(_) => {
                    &&& check(
                        token_views(old(self).tokens@),
                        old(self).current as int,
                        token_type,
                    )
                    &&& final(self).current == old(self).current + 1
                },
                Err(e) => {
                    &&& !check(
                        token_views(old(self).tokens@),
                        old(self).current as int,
                        token_type,
                    )
                    &&& e@ == (ParseErrorView {
                        token: token_views(old(self).tokens@)[old(self).current as int],
                        message: message@,
                    })
                    &&& final(self).current == old(self).current
                },
            },
    {
        if !self.check(token_type) {
            return Err(self.error(self.peek(), message));
        }
        self.advance();
        Ok(())
    }

    /// The failure with `message` at `token`.
    fn error(&self, token: &Token, message: &str) -> (e: ParseError)
        ensures
            e@ == (ParseErrorView { token: token@, message: message@ }),
    {
        ParseError { token: token.clone(), message: message.to_owned() }
    }

    /// Skips tokens up to the next statement boundary: the token at the
    /// current position is passed, and then every token up to the end, up
    /// to the first that follows a semicolon, or up to the first that begins
    /// a statement.
    pub fn synchronize(&mut self)
        requires
            old(self).wf(),
        ensures
            final(self).wf(),
            final(self).stream() == old(self).stream(),
            final(self).position() == if at_end(old(self).stream(), old(self).position()) {
                old(self).position()
            } else {
                boundary(old(self).stream(), old(self).position() + 1)
            },
    {
        let ghost ts = token_views(self.tokens@);
        if self.is_at_end() {
            return ;
        }
        self.advance();
        while !self.is_at_end()
            invariant
                self.wf(),
                self.tokens == old(self).tokens,
                ts == token_views(self.tokens@),
                self.current >= 1,
                !at_end(ts, old(self).current as int),
                boundary(ts, self.current as int) == boundary(ts, old(self).current + 1),
            decreases self.tokens@.len() - self.current,
        {
            if self.previous().token_type == TokenType::Semicolon {
                return ;
            }
            match self.peek().token_type {
                TokenType::Class
                | TokenType::Fun
                | TokenType::Var
                | TokenType::For
                | TokenType::If
                | TokenType::While
                | TokenType::Print
                | TokenType::Return => {
                    return ;
                },
                _ => {
                    self.advance();
                },
            }
        }
    }

    /// Passes the next token if it is an operator of the rule `level`.
    fn is_operator(&mut self, level: Level) -> (r: bool)
        requires
            old(self).wf(),
        ensures
            final(self).wf(),
            final(self).tokens == old(self).tokens,
            r == at_operator(token_views(old(self).tokens@), old(self).current as int, level),
            final(self).current == if r {
                old(self).current + 1
            } else {
                old(self).current as int
            },
    {
        match level {
            Level::Equality => self.is_match(&[TokenType::BangEqual, TokenType::EqualEqual]),
            Level::Comparison => self.is_match(
                &[
                    TokenType::Greater,
                    TokenType::GreaterEqual,
                    TokenType::Less,
                    TokenType::LessEqual,
                ],
            ),
            Level::Term => self.is_match(&[TokenType::Minus, TokenType::Plus]),
            Level::Factor => self.is_match(&[TokenType::Slash, TokenType::Star]),
        }
    }

    /// Passes the next token if its category is one of `types`.
    fn is_match(&mut self, types: &[TokenType]) -> (r: bool)
        requires
            old(self).wf(),
            !types@.contains(TokenType::Eof),
        ensures
            final(self).wf(),
            final(self).tokens == old(self).tokens,
            r == types@.contains(
                token_views(old(self).tokens@)[old(self).current as int].token_type,
            ),
            final(self).current == if r {
                old(self).current + 1
            } else {
                old(self).current as int
            },
    {
        let mut i: usize = 0;
        while i < types.len()
            invariant
                self.wf(),
                *self == *old(self),
                i <= types@.len(),
                !types@.contains(TokenType::Eof),
                forall|j: int|
                    0 <= j < i ==> types@[j] != token_views(
                        self.tokens@,
                    )[self.current as int].token_type,
            decreases types@.len() - i,
        {
            if self.check(types[i]) {
                self.advance();
                return true;
            }
            i += 1;
        }
        false
    }

    /// Whether the next token has the category `token_type`.
    fn check(&self, token_type: TokenType) -> (r: bool)
        requires
            self.wf(),
        ensures
            r == check(token_views(self.tokens@), self.current as int, token_type),
    {
        self.peek().token_type == token_type
    }

    /// Passes the next token, unless it is the end-of-input token.
    fn advance(&mut self)
        requires
            old(self).wf(),
        ensures
            final(self).wf(),
            final(self).tokens == old(self).tokens,
            final(self).current == if at_end(
                token_views(old(self).tokens@),
                old(self).current as int,
            ) {
                old(self).current as int
            } else {
                old(self).current + 1
            },
    {
        if !self.is_at_end() {
            // The last token is the end-of-input token, so this one is not the last.
            assert(self.current + 1 < self.tokens.len());
            self.current += 1;
        }
    }

    /// Whether the next token is the end-of-input token.
    fn is_at_end(&self) -> (r: bool)
        requires
            self.wf(),
        ensures
            r == at_end(token_views(self.tokens@), self.current as int),
    {
        self.peek().token_type == TokenType::Eof
    }

    /// The next token.
    fn peek(&self) -> (t: &Token)
        requires
            self.wf(),
        ensures
            t@ == token_views(self.tokens@)[self.current as int],
            *t == self.tokens@[self.current as int],
    {
        &self.tokens[self.current]
    }

    /// The token that was passed last.
    fn previous(&self) -> (t: &Token)
        requires
            self.wf(),
            self.current >= 1,
        ensures
            t@ == token_views(self.tokens@)[self.current - 1],
            *t == self.tokens@[self.current - 1],
    {
        &self.tokens[self.current - 1]
    }
}

} // verus!
