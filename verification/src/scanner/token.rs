//! Tokens: the lexical categories, the payload of a literal, and the token
//! record itself.
use crate::number::{Decimal, DecimalView};
use crate::text::{push_char, push_text};
use vstd::prelude::*;

verus! {

/// The lexical categories.
#[derive(Clone, Copy, Debug, PartialEq, Eq, Structural)]
pub enum TokenType {
    // Single-character tokens.
    LeftParen,
    RightParen,
    LeftBrace,
    RightBrace,
    Comma,
    Dot,
    Minus,
    Plus,
    Semicolon,
    Slash,
    Star,
    // One or two character tokens.
    Bang,
    BangEqual,
    Equal,
    EqualEqual,
    Greater,
    GreaterEqual,
    Less,
    LessEqual,
    // Literals.
    Identifier,
    String,
    Number,
    // Keywords.
    And,
    Class,
    Else,
    False,
    Fun,
    For,
    If,
    Nil,
    Or,
    Print,
    Return,
    Super,
    This,
    True,
    Var,
    While,
    Eof,
}

impl TokenType {
    /// The name of the category, as it is written in this file.
    pub open spec fn name_spec(self) -> Seq<char> {
        match self {
            TokenType::LeftParen => "LeftParen"@,
            TokenType::RightParen => "RightParen"@,
            TokenType::LeftBrace => "LeftBrace"@,
            TokenType::RightBrace => "RightBrace"@,
            TokenType::Comma => "Comma"@,
            TokenType::Dot => "Dot"@,
            TokenType::Minus => "Minus"@,
            TokenType::Plus => "Plus"@,
            TokenType::Semicolon => "Semicolon"@,
            TokenType::Slash => "Slash"@,
            TokenType::Star => "Star"@,
            TokenType::Bang => "Bang"@,
            TokenType::BangEqual => "BangEqual"@,
            TokenType::Equal => "Equal"@,
            TokenType::EqualEqual => "EqualEqual"@,
            TokenType::Greater => "Greater"@,
            TokenType::GreaterEqual => "GreaterEqual"@,
            TokenType::Less => "Less"@,
            TokenType::LessEqual => "LessEqual"@,
            TokenType::Identifier => "Identifier"@,
            TokenType::String => "String"@,
            TokenType::Number => "Number"@,
            TokenType::And => "And"@,
            TokenType::Class => "Class"@,
            TokenType::Else => "Else"@,
            TokenType::False => "False"@,
            TokenType::Fun => "Fun"@,
            TokenType::For => "For"@,
            TokenType::If => "If"@,
            TokenType::Nil => "Nil"@,
            TokenType::Or => "Or"@,
            TokenType::Print => "Print"@,
            TokenType::Return => "Return"@,
            TokenType::Super => "Super"@,
            TokenType::This => "This"@,
            TokenType::True => "True"@,
            TokenType::Var => "Var"@,
            TokenType::While => "While"@,
            TokenType::Eof => "Eof"@,
        }
    }

    /// The name of the category, for display.
    pub fn name(self) -> (s: &'static str)
        ensures
            s@ == self.name_spec(),
    {
        match self {
            TokenType::LeftParen => "LeftParen",
            TokenType::RightParen => "RightParen",
            TokenType::LeftBrace => "LeftBrace",
            TokenType::RightBrace => "RightBrace",
            TokenType::Comma => "Comma",
            TokenType::Dot => "Dot",
            TokenType::Minus => "Minus",
            TokenType::Plus => "Plus",
            TokenType::Semicolon => "Semicolon",
            TokenType::Slash => "Slash",
            TokenType::Star => "Star",
            TokenType::Bang => "Bang",
            TokenType::BangEqual => "BangEqual",
            TokenType::Equal => "Equal",
            TokenType::EqualEqual => "EqualEqual",
            TokenType::Greater => "Greater",
            TokenType::GreaterEqual => "GreaterEqual",
            TokenType::Less => "Less",
            TokenType::LessEqual => "LessEqual",
            TokenType::Identifier => "Identifier",
            TokenType::String => "String",
            TokenType::Number => "Number",
            TokenType::And => "And",
            TokenType::Class => "Class",
            TokenType::Else => "Else",
            TokenType::False => "False",
            TokenType::Fun => "Fun",
            TokenType::For => "For",
            TokenType::If => "If",
            TokenType::Nil => "Nil",
            TokenType::Or => "Or",
            TokenType::Print => "Print",
            TokenType::Return => "Return",
            TokenType::Super => "Super",
            TokenType::This => "This",
            TokenType::True => "True",
            TokenType::Var => "Var",
            TokenType::While => "While",
            TokenType::Eof => "Eof",
        }
    }
}

/// The payload of a literal: what a number or string token carries, and what
/// a literal node of an expression holds.
#[derive(Debug)]
pub enum Literal {
    /// A number, as the exact decimal that the source text writes.
    Number(Decimal),
    /// A string, without its quotes.
    Text(String),
    /// `true` or `false`.
    Boolean(bool),
}

/// What a [`Literal`] holds.
pub enum LiteralView {
    Number(DecimalView),
    Text(Seq<char>),
    Boolean(bool),
}

impl View for Literal {
    type V = LiteralView;

    open spec fn view(&self) -> LiteralView {
        match self {
            Literal::Number(d) => LiteralView::Number(d@),
            Literal::Text(s) => LiteralView::Text(s@),
            Literal::Boolean(b) => LiteralView::Boolean(*b),
        }
    }
}

impl LiteralView {
    /// The text that shows the payload: the numeral of a number, the text of
    /// a string, `true` or `false`.
    pub open spec fn text(self) -> Seq<char> {
        match self {
            LiteralView::Number(d) => d.text(),
            LiteralView::Text(s) => s,
            LiteralView::Boolean(b) => if b {
                "true"@
            } else {
                "false"@
            },
        }
    }
}

impl Literal {
    /// The text that shows the payload.
    pub fn to_text(&self) -> (s: String)
        ensures
            s@ == self@.text(),
    {
        match self {
            Literal::Number(d) => d.to_text(),
            Literal::Text(s) => s.clone(),
            Literal::Boolean(b) => if *b {
                "true".to_owned()
            } else {
                "false".to_owned()
            },
        }
    }
}

impl Clone for Literal {
    fn clone(&self) -> (r: Self)
        ensures
            r@ == self@,
    {
        match self {
            Literal::Number(d) => Literal::Number(d.clone()),
            Literal::Text(s) => Literal::Text(s.clone()),
            Literal::Boolean(b) => Literal::Boolean(*b),
        }
    }
}

/// The view of an optional literal.
pub open spec fn literal_view(literal: Option<Literal>) -> Option<LiteralView> {
    match literal {
        Some(l) => Some(l@),
        None => None,
    }
}

/// A classified, positioned lexical unit.
#[derive(Debug)]
pub struct Token {
    /// The lexical category.
    pub token_type: TokenType,
    /// The source text that the token was made from.
    pub lexeme: String,
    /// The payload of a number or string token.
    pub literal: Option<Literal>,
    /// The source line, counted from 1.
    pub line: usize,
}

/// What a [`Token`] holds.
pub struct TokenView {
    pub token_type: TokenType,
    pub lexeme: Seq<char>,
    pub literal: Option<LiteralView>,
    pub line: nat,
}

impl View for Token {
    type V = TokenView;

    open spec fn view(&self) -> TokenView {
        TokenView {
            token_type: self.token_type,
            lexeme: self.lexeme@,
            literal: literal_view(self.literal),
            line: self.line as nat,
        }
    }
}

impl TokenView {
    /// The text that shows the token: the name of its category, its lexeme
    /// and the text of its payload, with a blank after each of the first two.
    pub open spec fn description(self) -> Seq<char> {
        self.token_type.name_spec() + seq![' '] + self.lexeme + seq![' '] + match self.literal {
            Some(l) => l.text(),
            None => Seq::empty(),
        }
    }
}

impl Token {
    /// The text that shows the token.
    pub fn describe(&self) -> (s: String)
        ensures
            s@ == self@.description(),
    {
        let mut s: String = String::new();
        push_text(&mut s, self.token_type.name());
        push_char(&mut s, ' ');
        push_text(&mut s, self.lexeme.as_str());
        push_char(&mut s, ' ');
        match &self.literal {
            Some(l) => {
                let payload: String = l.to_text();
                push_text(&mut s, payload.as_str());
            },
            None => {},
        }
        s
    }

    /// A token with the given fields.
    pub fn new(token_type: TokenType, lexeme: String, literal: Option<Literal>, line: usize) -> (t:
        Token)
        ensures
            t.token_type == token_type,
            t.lexeme == lexeme,
            t.literal == literal,
            t.line == line,
    {
        Token { token_type, lexeme, literal, line }
    }
}

impl Clone for Token {
    fn clone(&self) -> (r: Self)
        ensures
            r@ == self@,
    {
        let literal: Option<Literal> = match &self.literal {
            Some(l) => Some(l.clone()),
            None => None,
        };
        Token {
            token_type: self.token_type,
            lexeme: self.lexeme.clone(),
            literal,
            line: self.line,
        }
    }
}

/// Two tokens are equal when they have the same category and the same
/// lexeme, wherever they stand and whatever they carry.
impl PartialEq for Token {
    fn eq(&self, other: &Self) -> (r: bool) {
        self.token_type == other.token_type && self.lexeme == other.lexeme
    }
}

impl vstd::std_specs::cmp::PartialEqSpecImpl for Token {
    open spec fn obeys_eq_spec() -> bool {
        true
    }

    open spec fn eq_spec(&self, other: &Self) -> bool {
        self.token_type == other.token_type && self.lexeme@ == other.lexeme@
    }
}

/// The views of a run of tokens, one by one.
pub open spec fn token_views(tokens: Seq<Token>) -> Seq<TokenView> {
    tokens.map_values(|t: Token| t@)
}

} // verus!
