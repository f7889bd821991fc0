//! The scanner: from source text to tokens.
//!
//! A scanner walks the characters of the source text once, with one and two
//! characters of lookahead. Text that is no lexeme is recorded as an error and
//! skipped; scanning always reaches the end and always ends the token stream
//! with the end-of-input token.
pub mod laws;
pub mod rules;
pub mod token;

pub use self::rules::{Found, Opening, Scan, ScanErrorView, Step, opening_of};
pub use self::token::{Literal, LiteralView, Token, TokenType, TokenView};

use self::rules::{
    alphabetic, alphanumeric, alphanumerics, end_of_input, keyword, line_body, newlines,
    number_at, scan, scan_from, scan_one, string_at, string_body, word_at,
};
use self::token::{literal_view, token_views};
use crate::number::Decimal;
use crate::text::{
    chars_of, digits, is_decimal_digit, is_digit, lemma_run_end, run_end, string_between,
};
use vstd::prelude::*;

verus! {

/// Text that is no lexeme: what is wrong with it, and the line it stands on.
#[derive(Debug)]
pub struct ScanError {
    pub line: usize,
    pub message: String,
}

impl View for ScanError {
    type V = ScanErrorView;

    open spec fn view(&self) -> ScanErrorView {
        ScanErrorView { line: self.line as nat, message: self.message@ }
    }
}

/// The views of a run of errors, one by one.
pub open spec fn error_views(errors: Seq<ScanError>) -> Seq<ScanErrorView> {
    errors.map_values(|e: ScanError| e@)
}

/// What one step of the scanner returned, as the rules name it.
pub open spec fn found(r: Result<Option<Token>, ScanError>) -> Found {
    match r {
        Ok(Some(t)) => Found::Token(t@),
        Ok(None) => Found::Nothing,
        Err(e) => Found::Error(e@),
    }
}

/// Whether the characters `chars[from..to]` spell `word`.
fn spells(chars: &Vec<char>, from: usize, to: usize, word: &str) -> (r: bool)
    requires
        from <= to <= chars@.len(),
    ensures
        r == (chars@.subrange(from as int, to as int) == word@),
{
    let n: usize = word.unicode_len();
    if to - from != n {
        return false;
    }
    let mut i: usize = 0;
    while i < n
        invariant
            from <= to <= chars@.len(),
            n == word@.len(),
            to - from == n,
            i <= n,
            forall|j: int| 0 <= j < i ==> chars@[from + j] == word@[j],
        decreases n - i,
    {
        if chars[from + i] != word.get_char(i) {
            return false;
        }
        i += 1;
    }
    assert(chars@.subrange(from as int, to as int) =~= word@);
    true
}

/// The category of the reserved word that `chars[from..to]` spells, if it
/// spells one.
pub(crate) fn keyword_between(chars: &Vec<char>, from: usize, to: usize) -> (r: Option<
    TokenType,
>)
    requires
        from <= to <= chars@.len(),
    ensures
        r == keyword(chars@.subrange(from as int, to as int)),
{
    if spells(chars, from, to, "and") {
        Some(TokenType::And)
    } else if spells(chars, from, to, "class") {
        Some(TokenType::Class)
    } else if spells(chars, from, to, "else") {
        Some(TokenType::Else)
    } else if spells(chars, from, to, "false") {
        Some(TokenType::False)
    } else if spells(chars, from, to, "for") {
        Some(TokenType::For)
    } else if spells(chars, from, to, "fun") {
        Some(TokenType::Fun)
    } else if spells(chars, from, to, "if") {
        Some(TokenType::If)
    } else if spells(chars, from, to, "nil") {
        Some(TokenType::Nil)
    } else if spells(chars, from, to, "or") {
        Some(TokenType::Or)
    } else if spells(chars, from, to, "print") {
        Some(TokenType::Print)
    } else if spells(chars, from, to, "return") {
        Some(TokenType::Return)
    } else if spells(chars, from, to, "super") {
        Some(TokenType::Super)
    } else if spells(chars, from, to, "this") {
        Some(TokenType::This)
    } else if spells(chars, from, to, "true") {
        Some(TokenType::True)
    } else if spells(chars, from, to, "var") {
        Some(TokenType::Var)
    } else if spells(chars, from, to, "while") {
        Some(TokenType::While)
    } else {
        None
    }
}

/// The category of a reserved word; `None` for any other text.
pub fn keyword_type(text: &str) -> (r: Option<TokenType>)
    ensures
        r == keyword(text@),
{
    let chars: Vec<char> = chars_of(text);
    assert(chars@.subrange(0, chars@.len() as int) == chars@);
    keyword_between(&chars, 0, chars.len())
}

/// A scanner over one source text.
pub struct Scanner {
    source: Vec<char>,
    tokens: Vec<Token>,
    errors: Vec<ScanError>,
    start: usize,
    current: usize,
    line: usize,
}

impl Scanner {
    /// The scanner stands inside its text, the text is short enough for its
    /// lines to be counted, and no more lines were counted than characters read.
    pub closed spec fn wf(&self) -> bool {
        &&& self.start <= self.current <= self.source@.len() < usize::MAX
        &&& 1 <= self.line <= self.current + 1
    }

    /// The source text.
    pub closed spec fn source(&self) -> Seq<char> {
        self.source@
    }

    /// The tokens made so far.
    pub closed spec fn scanned(&self) -> Seq<TokenView> {
        token_views(self.tokens@)
    }

    /// The errors met so far.
    pub closed spec fn reported(&self) -> Seq<ScanErrorView> {
        error_views(self.errors@)
    }

    /// How many characters of the source text have been read.
    pub closed spec fn position(&self) -> int {
        self.current as int
    }

    /// The line that the next character stands on.
    pub closed spec fn line(&self) -> nat {
        self.line as nat
    }

    /// Whether the scanner is new: nothing was read, made or met.
    pub open spec fn is_new(&self) -> bool {
        &&& self.position() == 0
        &&& self.line() == 1
        &&& self.scanned().len() == 0
        &&& self.reported().len() == 0
    }

    /// A scanner at the beginning of `source`.
    pub fn new(source: String) -> (s: Scanner)
        requires
            source@.len() < usize::MAX,
        ensures
            s.wf(),
            s.is_new(),
            s.source() == source@,
    {
        let chars: Vec<char> = chars_of(source.as_str());
        let s = Scanner {
            source: chars,
            tokens: Vec::new(),
            errors: Vec::new(),
            start: 0,
            current: 0,
            line: 1,
        };
        s
    }

    /// The tokens made so far.
    pub fn tokens(&self) -> (tokens: &Vec<Token>)
        ensures
            token_views(tokens@) == self.scanned(),
    {
        &self.tokens
    }

    /// Gives up the scanner for the tokens that it made.
    pub fn into_tokens(self) -> (tokens: Vec<Token>)
        ensures
            token_views(tokens@) == self.scanned(),
    {
        self.tokens
    }

    /// The errors met so far.
    pub fn errors(&self) -> (errors: &Vec<ScanError>)
        ensures
            error_views(errors@) == self.reported(),
    {
        &self.errors
    }

    /// Scans the rest of the source text and ends the token stream.
    ///
    /// The tokens of the rest are added to the tokens made so far, then the
    /// end-of-input token on the last line; the errors of the rest are added
    /// to the errors met so far. On a new scanner the result is the scan of
    /// the whole source text. The stream always ends with the end-of-input
    /// token, and none of the tokens that this call puts before it is one.
    pub fn scan_tokens(&mut self) -> (tokens: &Vec<Token>)
        requires
            old(self).wf(),
        ensures
            final(self).wf(),
            final(self).source() == old(self).source(),
            final(self).position() == old(self).source().len(),
            ({
                let rest = scan_from(old(self).source(), old(self).position(), old(self).line());
                &&& final(self).scanned() == old(self).scanned() + rest.tokens.push(
                    end_of_input(rest.line),
                )
                &&& final(self).reported() == old(self).reported() + rest.errors
                &&& final(self).line() == rest.line
                &&& forall|i: int|
                    0 <= i < rest.tokens.len() ==> (#[trigger] rest.tokens[i]).token_type
                        != TokenType::Eof
            }),
            old(self).is_new() ==> final(self).scanned() == scan(old(self).source()).tokens
                && final(self).reported() == scan(old(self).source()).errors,
            token_views(tokens@) == final(self).scanned(),
            tokens@.len() > 0,
            tokens@.last()@ == end_of_input(final(self).line()),
    {
        let ghost src = self.source@;
        let ghost tokens0 = token_views(self.tokens@);
        let ghost errors0 = error_views(self.errors@);
        let ghost rest = scan_from(src, self.current as int, self.line as nat);
        proof {
            laws::lemma_scan_from_has_no_end(src, self.current as int, self.line as nat);
        }
        while !self.is_at_end()
            invariant
                self.wf(),
                self.source@ == src,
                self.current <= src.len(),
                token_views(self.tokens@) + scan_from(
                    src,
                    self.current as int,
                    self.line as nat,
                ).tokens == tokens0 + rest.tokens,
                error_views(self.errors@) + scan_from(
                    src,
                    self.current as int,
                    self.line as nat,
                ).errors == errors0 + rest.errors,
                scan_from(src, self.current as int, self.line as nat).line == rest.line,
            decreases src.len() - self.current,
        {
            proof {
                laws::lemma_scan_one_advances(src, self.current as int, self.line as nat);
            }
            self.start = self.current;
            match self.scan_token() {
                Ok(Some(token)) => {
                    self.tokens.push(token);
                },
                Ok(None) => (),
                Err(e) => {
                    self.errors.push(e);
                },
            }
        }
        // Nothing is left to scan: what was made is what the rest yields.
        let ghost tokens2 = token_views(self.tokens@);
        assert(tokens2 == tokens0 + rest.tokens);
        assert(error_views(self.errors@) == errors0 + rest.errors);
        let end: Token = Token::new(TokenType::Eof, String::new(), None, self.line);
        self.tokens.push(end);
        assert(tokens2.push(end_of_input(rest.line)) =~= tokens0 + rest.tokens.push(
            end_of_input(rest.line),
        ));
        &self.tokens
    }

    /// Scans the lexeme that begins at the current position.
    fn scan_token(&mut self) -> (r: Result<Option<Token>, ScanError>)
        requires
            old(self).wf(),
            old(self).start == old(self).current,
            old(self).current < old(self).source@.len(),
        ensures
            final(self).wf(),
            final(self).source@ == old(self).source@,
            final(self).tokens == old(self).tokens,
            final(self).errors == old(self).errors,
            ({
                let step = scan_one(
                    old(self).source@,
                    old(self).current as int,
                    old(self).line as nat,
                );
                &&& final(self).current == step.next
                &&& final(self).line == step.line
                &&& found(r) == step.found
            }),
    {
        let c: char = match self.advance() {
            Some(c) => c,
            None => {
                return Ok(None);
            },
        };
        match c {
            '(' => Ok(Some(self.make_empty_token(TokenType::LeftParen))),
            ')' => Ok(Some(self.make_empty_token(TokenType::RightParen))),
            '{' => Ok(Some(self.make_empty_token(TokenType::LeftBrace))),
            '}' => Ok(Some(self.make_empty_token(TokenType::RightBrace))),
            ',' => Ok(Some(self.make_empty_token(TokenType::Comma))),
            '.' => Ok(Some(self.make_empty_token(TokenType::Dot))),
            '-' => Ok(Some(self.make_empty_token(TokenType::Minus))),
            '+' => Ok(Some(self.make_empty_token(TokenType::Plus))),
            ';' => Ok(Some(self.make_empty_token(TokenType::Semicolon))),
            '*' => Ok(Some(self.make_empty_token(TokenType::Star))),
            '!' => {
                let token_type: TokenType = if self.is_match('=') {
                    TokenType::BangEqual
                } else {
                    TokenType::Bang
                };
                Ok(Some(self.make_empty_token(token_type)))
            },
            '=' => {
                let token_type: TokenType = if self.is_match('=') {
                    TokenType::EqualEqual
                } else {
                    TokenType::Equal
                };
                Ok(Some(self.make_empty_token(token_type)))
            },
            '<' => {
                let token_type: TokenType = if self.is_match('=') {
                    TokenType::LessEqual
                } else {
                    TokenType::Less
                };
                Ok(Some(self.make_empty_token(token_type)))
            },
            '>' => {
                let token_type: TokenType = if self.is_match('=') {
                    TokenType::GreaterEqual
                } else {
                    TokenType::Greater
                };
                Ok(Some(self.make_empty_token(token_type)))
            },
            '/' => {
                if self.is_match('/') {
                    self.skip_line();
                    Ok(None)
                } else {
                    Ok(Some(self.make_empty_token(TokenType::Slash)))
                }
            },
            ' ' | '\r' | '\t' => Ok(None),
            '\n' => {
                self.line += 1;
                Ok(None)
            },
            '"' => match self.parse_string() {
                Ok(token) => Ok(Some(token)),
                Err(e) => Err(e),
            },
            _ => match opening_of(c, alphabetic(c)) {
                Opening::Number => Ok(Some(self.parse_number())),
                Opening::Word => Ok(Some(self.parse_identifier())),
                Opening::Nothing => Err(
                    ScanError { line: self.line, message: "Unexpected character.".to_owned() },
                ),
            },
        }
    }

    /// Whether the whole source text has been read.
    fn is_at_end(&self) -> (r: bool)
        ensures
            r == (self.current >= self.source@.len()),
    {
        self.current >= self.source.len()
    }

    /// Reads the next character, if there is one.
    fn advance(&mut self) -> (c: Option<char>)
        requires
            old(self).wf(),
        ensures
            final(self).wf(),
            final(self).source@ == old(self).source@,
            final(self).tokens == old(self).tokens,
            final(self).errors == old(self).errors,
            final(self).start == old(self).start,
            final(self).line == old(self).line,
            old(self).current < old(self).source@.len() ==> c == Some(
                old(self).source@[old(self).current as int],
            ) && final(self).current == old(self).current + 1,
            old(self).current >= old(self).source@.len() ==> c is None && final(self).current
                == old(self).current,
    {
        if self.current < self.source.len() {
            let c: char = self.source[self.current];
            self.current += 1;
            Some(c)
        } else {
            None
        }
    }

    /// Reads the next character if it is the expected one.
    fn is_match(&mut self, expected: char) -> (r: bool)
        requires
            old(self).wf(),
        ensures
            final(self).wf(),
            final(self).source@ == old(self).source@,
            final(self).tokens == old(self).tokens,
            final(self).errors == old(self).errors,
            final(self).start == old(self).start,
            final(self).line == old(self).line,
            r == (old(self).current < old(self).source@.len() && old(self).source@[old(
                self,
            ).current as int] == expected),
            final(self).current == if r {
                old(self).current + 1
            } else {
                old(self).current as int
            },
    {
        if self.current < self.source.len() {
            if self.source[self.current] != expected {
                return false;
            }
            self.current += 1;
            return true;
        }
        false
    }

    /// The next character, or the null character at the end of the text.
    fn peek(&self) -> (c: char)
        ensures
            c == if self.current < self.source@.len() {
                self.source@[self.current as int]
            } else {
                '\0'
            },
    {
        if self.current < self.source.len() {
            self.source[self.current]
        } else {
            '\0'
        }
    }

    /// The character after the next, or the null character past the end of
    /// the text.
    fn peek_next(&self) -> (c: char)
        requires
            self.wf(),
        ensures
            c == if self.current + 1 < self.source@.len() {
                self.source@[self.current + 1]
            } else {
                '\0'
            },
    {
        if self.current + 1 < self.source.len() {
            self.source[self.current + 1]
        } else {
            '\0'
        }
    }

    /// Reads the rest of a comment: up to the end of the line, which stays.
    fn skip_line(&mut self)
        requires
            old(self).wf(),
        ensures
            final(self).wf(),
            final(self).source@ == old(self).source@,
            final(self).tokens == old(self).tokens,
            final(self).errors == old(self).errors,
            final(self).start == old(self).start,
            final(self).line == old(self).line,
            final(self).current == run_end(
                old(self).source@,
                old(self).current as int,
                line_body(),
            ),
    {
        while self.peek() != '\n' && !self.is_at_end()
            invariant
                self.wf(),
                self.source@ == old(self).source@,
                self.tokens == old(self).tokens,
                self.errors == old(self).errors,
                self.start == old(self).start,
                self.line == old(self).line,
                old(self).current <= self.current <= self.source@.len(),
                run_end(self.source@, self.current as int, line_body()) == run_end(
                    old(self).source@,
                    old(self).current as int,
                    line_body(),
                ),
            decreases self.source@.len() - self.current,
        {
            self.advance();
        }
    }

    /// Reads a string whose opening quote has just been read.
    fn parse_string(&mut self) -> (r: Result<Token, ScanError>)
        requires
            old(self).wf(),
            old(self).current == old(self).start + 1,
            old(self).line <= old(self).start + 1,
        ensures
            final(self).wf(),
            final(self).source@ == old(self).source@,
            final(self).tokens == old(self).tokens,
            final(self).errors == old(self).errors,
            ({
                let step = string_at(
                    old(self).source@,
                    old(self).start as int,
                    old(self).line as nat,
                );
                &&& final(self).current == step.next
                &&& final(self).line == step.line
                &&& match r {
                    Ok(t) => step.found == Found::Token(t@),
                    Err(e) => step.found == Found::Error(e@),
                }
            }),
    {
        let ghost src = self.source@;
        let ghost first = self.current as int;
        let ghost line0 = self.line as nat;
        while self.peek() != '"' && !self.is_at_end()
            invariant
                self.wf(),
                self.source@ == src,
                self.tokens == old(self).tokens,
                self.errors == old(self).errors,
                self.start == old(self).start,
                first == self.start + 1,
                first <= self.current <= src.len(),
                run_end(src, self.current as int, string_body()) == run_end(
                    src,
                    first,
                    string_body(),
                ),
                self.line == line0 + newlines(src.subrange(first, self.current as int)),
                self.line <= self.current,
            decreases src.len() - self.current,
        {
            assert(src.subrange(first, self.current + 1).drop_last() == src.subrange(
                first,
                self.current as int,
            ));
            if self.peek() == '\n' {
                self.line += 1;
            }
            self.advance();
        }
        if self.is_at_end() {
            return Err(ScanError { line: self.line, message: "Unterminated string.".to_owned() });
        }
        // The closing quote.
        self.advance();
        let value: String = string_between(&self.source, self.start + 1, self.current - 1);
        Ok(self.make_token(TokenType::String, Some(Literal::Text(value))))
    }

    /// Reads a number whose first digit has just been read.
    fn parse_number(&mut self) -> (t: Token)
        requires
            old(self).wf(),
            old(self).current == old(self).start + 1,
            is_digit(old(self).source@[old(self).start as int]),
        ensures
            final(self).wf(),
            final(self).source@ == old(self).source@,
            final(self).tokens == old(self).tokens,
            final(self).errors == old(self).errors,
            final(self).line == old(self).line,
            ({
                let step = number_at(
                    old(self).source@,
                    old(self).start as int,
                    old(self).line as nat,
                );
                &&& final(self).current == step.next
                &&& step.found == Found::Token(t@)
            }),
    {
        let ghost src = self.source@;
        let ghost start = self.start as int;
        while is_decimal_digit(self.peek())
            invariant
                self.wf(),
                self.source@ == src,
                self.tokens == old(self).tokens,
                self.errors == old(self).errors,
                self.start == old(self).start,
                self.line == old(self).line,
                start == self.start,
                start < self.current <= src.len(),
                run_end(src, self.current as int, digits()) == run_end(src, start, digits()),
            decreases src.len() - self.current,
        {
            self.advance();
        }
        let point: usize = self.current;
        // A fraction: a point that a digit follows.
        if self.peek() == '.' && is_decimal_digit(self.peek_next()) {
            self.advance();
            while is_decimal_digit(self.peek())
                invariant
                    self.wf(),
                    self.source@ == src,
                    self.tokens == old(self).tokens,
                    self.errors == old(self).errors,
                    self.start == old(self).start,
                    self.line == old(self).line,
                    start == self.start,
                    point + 1 <= self.current <= src.len(),
                    run_end(src, self.current as int, digits()) == run_end(
                        src,
                        point + 1,
                        digits(),
                    ),
                decreases src.len() - self.current,
            {
                self.advance();
            }
        }
        proof {
            lemma_run_end(src, start, digits());
            if point < src.len() {
                lemma_run_end(src, point + 1, digits());
            }
            assert forall|i: int| 0 <= i < point - start implies is_digit(
                #[trigger] src.subrange(start, point as int)[i],
            ) by {}
            if point < self.current {
                assert forall|i: int| 0 <= i < self.current - point - 1 implies is_digit(
                    #[trigger] src.subrange(point + 1, self.current as int)[i],
                ) by {}
            }
        }
        let value: Decimal = Decimal::from_parts(&self.source, self.start, point, self.current);
        self.make_token(TokenType::Number, Some(Literal::Number(value)))
    }

    /// Reads an identifier or reserved word whose first character has just
    /// been read.
    fn parse_identifier(&mut self) -> (t: Token)
        requires
            old(self).wf(),
            old(self).current == old(self).start + 1,
        ensures
            final(self).wf(),
            final(self).source@ == old(self).source@,
            final(self).tokens == old(self).tokens,
            final(self).errors == old(self).errors,
            final(self).line == old(self).line,
            ({
                let step = word_at(
                    old(self).source@,
                    old(self).start as int,
                    old(self).line as nat,
                );
                &&& final(self).current == step.next
                &&& step.found == Found::Token(t@)
            }),
    {
        let ghost src = self.source@;
        let ghost first = self.current as int;
        while !self.is_at_end() && alphanumeric(self.peek())
            invariant
                self.wf(),
                self.source@ == src,
                self.tokens == old(self).tokens,
                self.errors == old(self).errors,
                self.start == old(self).start,
                self.line == old(self).line,
                first == self.start + 1,
                first <= self.current <= src.len(),
                run_end(src, self.current as int, alphanumerics()) == run_end(
                    src,
                    first,
                    alphanumerics(),
                ),
            decreases src.len() - self.current,
        {
            self.advance();
        }
        let token_type: TokenType = match keyword_between(&self.source, self.start, self.current) {
            Some(t) => t,
            None => TokenType::Identifier,
        };
        self.make_empty_token(token_type)
    }

    /// The token without a payload whose lexeme has just been read.
    fn make_empty_token(&self, token_type: TokenType) -> (t: Token)
        requires
            self.wf(),
        ensures
            t@ == (TokenView {
                token_type,
                lexeme: self.source@.subrange(self.start as int, self.current as int),
                literal: None,
                line: self.line as nat,
            }),
    {
        self.make_token(token_type, None)
    }

    /// The token whose lexeme has just been read.
    fn make_token(&self, token_type: TokenType, literal: Option<Literal>) -> (t: Token)
        requires
            self.wf(),
        ensures
            t@ == (TokenView {
                token_type,
                lexeme: self.source@.subrange(self.start as int, self.current as int),
                literal: literal_view(literal),
                line: self.line as nat,
            }),
    {
        let text: String = string_between(&self.source, self.start, self.current);
        Token::new(token_type, text, literal, self.line)
    }
}

} // verus!
