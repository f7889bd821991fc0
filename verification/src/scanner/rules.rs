//! The lexical rules: what scanning a source text yields, as a function of
//! the text alone.
use crate::number::decimal_of;
use crate::scanner::token::{LiteralView, TokenType, TokenView};
use crate::text::{digits, is_decimal_digit, is_digit, run_end};
use vstd::prelude::*;

verus! {

/// Whether a character may begin an identifier: the result of
/// `char::is_alphabetic`.
pub uninterp spec fn is_alphabetic(c: char) -> bool;

/// Whether a character may continue an identifier: the result of
/// `char::is_alphanumeric`.
pub uninterp spec fn is_alphanumeric(c: char) -> bool;

/// Asks `char::is_alphabetic` whether a character is alphabetic. The contract
/// gives the answer its name and claims no more of it.
#[verifier::external_body]
pub(crate) fn alphabetic(c: char) -> (r: bool)
    ensures
        r == is_alphabetic(c),
{
    c.is_alphabetic()
}

/// Asks `char::is_alphanumeric` whether a character is alphabetic or numeric.
/// The contract gives the answer its name and claims no more of it.
#[verifier::external_body]
pub(crate) fn alphanumeric(c: char) -> (r: bool)
    ensures
        r == is_alphanumeric(c),
{
    c.is_alphanumeric()
}

/// What a character begins that is no punctuation, operator, blank, line end
/// or quote.
#[derive(Clone, Copy, Debug, PartialEq, Eq, Structural)]
pub enum Opening {
    /// A number: the character is a decimal digit.
    Number,
    /// An identifier or a reserved word: the character is alphabetic.
    Word,
    /// No lexeme.
    Nothing,
}

/// What the character `c` begins, given whether it is alphabetic. A digit
/// begins a number whatever else it is.
pub open spec fn opening(c: char, alphabetic: bool) -> Opening {
    if is_digit(c) {
        Opening::Number
    } else if alphabetic {
        Opening::Word
    } else {
        Opening::Nothing
    }
}

/// What the character `c` begins, given whether it is alphabetic.
pub fn opening_of(c: char, alphabetic: bool) -> (o: Opening)
    ensures
        o == opening(c, alphabetic),
{
    if is_decimal_digit(c) {
        Opening::Number
    } else if alphabetic {
        Opening::Word
    } else {
        Opening::Nothing
    }
}

/// The class of the characters that may continue an identifier.
pub open spec fn alphanumerics() -> spec_fn(char) -> bool {
    |c: char| is_alphanumeric(c)
}

/// The class of the characters that do not end a line.
pub open spec fn line_body() -> spec_fn(char) -> bool {
    |c: char| c != '\n'
}

/// The class of the characters that do not close a string.
pub open spec fn string_body() -> spec_fn(char) -> bool {
    |c: char| c != '"'
}

/// How many line ends a text holds.
pub open spec fn newlines(s: Seq<char>) -> nat
    decreases s.len(),
{
    if s.len() == 0 {
        0
    } else {
        newlines(s.drop_last()) + if s.last() == '\n' {
            1nat
        } else {
            0nat
        }
    }
}

/// The category of a token that is written with one character and begins no
/// longer token.
pub open spec fn single(c: char) -> Option<TokenType> {
    if c == '(' {
        Some(TokenType::LeftParen)
    } else if c == ')' {
        Some(TokenType::RightParen)
    } else if c == '{' {
        Some(TokenType::LeftBrace)
    } else if c == '}' {
        Some(TokenType::RightBrace)
    } else if c == ',' {
        Some(TokenType::Comma)
    } else if c == '.' {
        Some(TokenType::Dot)
    } else if c == '-' {
        Some(TokenType::Minus)
    } else if c == '+' {
        Some(TokenType::Plus)
    } else if c == ';' {
        Some(TokenType::Semicolon)
    } else if c == '*' {
        Some(TokenType::Star)
    } else {
        None
    }
}

/// For a character that is an operator alone and another operator when `=`
/// follows it: the category with `=`, then the category without.
pub open spec fn paired(c: char) -> Option<(TokenType, TokenType)> {
    if c == '!' {
        Some((TokenType::BangEqual, TokenType::Bang))
    } else if c == '=' {
        Some((TokenType::EqualEqual, TokenType::Equal))
    } else if c == '<' {
        Some((TokenType::LessEqual, TokenType::Less))
    } else if c == '>' {
        Some((TokenType::GreaterEqual, TokenType::Greater))
    } else {
        None
    }
}

/// The category of a reserved word; `None` for any other text.
pub open spec fn keyword(text: Seq<char>) -> Option<TokenType> {
    if text == "and"@ {
        Some(TokenType::And)
    } else if text == "class"@ {
        Some(TokenType::Class)
    } else if text == "else"@ {
        Some(TokenType::Else)
    } else if text == "false"@ {
        Some(TokenType::False)
    } else if text == "for"@ {
        Some(TokenType::For)
    } else if text == "fun"@ {
        Some(TokenType::Fun)
    } else if text == "if"@ {
        Some(TokenType::If)
    } else if text == "nil"@ {
        Some(TokenType::Nil)
    } else if text == "or"@ {
        Some(TokenType::Or)
    } else if text == "print"@ {
        Some(TokenType::Print)
    } else if text == "return"@ {
        Some(TokenType::Return)
    } else if text == "super"@ {
        Some(TokenType::Super)
    } else if text == "this"@ {
        Some(TokenType::This)
    } else if text == "true"@ {
        Some(TokenType::True)
    } else if text == "var"@ {
        Some(TokenType::Var)
    } else if text == "while"@ {
        Some(TokenType::While)
    } else {
        None
    }
}

/// What a [`ScanError`](crate::scanner::ScanError) holds.
pub struct ScanErrorView {
    pub line: nat,
    pub message: Seq<char>,
}

/// The message for a string that the source text does not close.
pub open spec fn unterminated_message() -> Seq<char> {
    "Unterminated string."@
}

/// The message for a character that begins no lexeme.
pub open spec fn unexpected_message() -> Seq<char> {
    "Unexpected character."@
}

/// What stands at one place of the source text.
pub enum Found {
    /// A token.
    Token(TokenView),
    /// White space or a comment.
    Nothing,
    /// Text that is no lexeme.
    Error(ScanErrorView),
}

/// One step of scanning: what was found, where the next step begins, and
/// the line that it begins on.
pub struct Step {
    pub found: Found,
    pub next: int,
    pub line: nat,
}

/// The token without a payload whose lexeme is `src[start..end]`.
pub open spec fn plain(
    src: Seq<char>,
    start: int,
    end: int,
    token_type: TokenType,
    line: nat,
) -> Step {
    Step {
        found: Found::Token(
            TokenView { token_type, lexeme: src.subrange(start, end), literal: None, line },
        ),
        next: end,
        line,
    }
}

/// A string that begins at `start`. It ends with the next `"`; line ends
/// inside it count. Without a closing `"` it is an error at the last line,
/// and the rest of the text is used up.
pub open spec fn string_at(src: Seq<char>, start: int, line: nat) -> Step {
    let close = run_end(src, start + 1, string_body());
    let last_line = line + newlines(src.subrange(start + 1, close));
    if close < src.len() {
        Step {
            found: Found::Token(
                TokenView {
                    token_type: TokenType::String,
                    lexeme: src.subrange(start, close + 1),
                    literal: Some(LiteralView::Text(src.subrange(start + 1, close))),
                    line: last_line,
                },
            ),
            next: close + 1,
            line: last_line,
        }
    } else {
        Step {
            found: Found::Error(
                ScanErrorView { line: last_line, message: unterminated_message() },
            ),
            next: close,
            line: last_line,
        }
    }
}

/// Where the whole part of the number that begins at `start` ends.
pub open spec fn whole_end(src: Seq<char>, start: int) -> int {
    run_end(src, start, digits())
}

/// Whether the number that begins at `start` has a fraction: a point that a
/// digit follows.
pub open spec fn has_fraction(src: Seq<char>, start: int) -> bool {
    let point = whole_end(src, start);
    point + 1 < src.len() && src[point] == '.' && is_digit(src[point + 1])
}

/// Where the number that begins at `start` ends.
pub open spec fn number_end(src: Seq<char>, start: int) -> int {
    if has_fraction(src, start) {
        run_end(src, whole_end(src, start) + 1, digits())
    } else {
        whole_end(src, start)
    }
}

/// A number that begins at `start`: digits, and a point with more digits
/// where a digit follows the point.
pub open spec fn number_at(src: Seq<char>, start: int, line: nat) -> Step {
    let point = whole_end(src, start);
    let end = number_end(src, start);
    let fraction = if has_fraction(src, start) {
        src.subrange(point + 1, end)
    } else {
        Seq::empty()
    };
    Step {
        found: Found::Token(
            TokenView {
                token_type: TokenType::Number,
                lexeme: src.subrange(start, end),
                literal: Some(
                    LiteralView::Number(decimal_of(src.subrange(start, point), fraction)),
                ),
                line,
            },
        ),
        next: end,
        line,
    }
}

/// The category of an identifier: that of the reserved word it spells, if
/// it spells one.
pub open spec fn word_type(text: Seq<char>) -> TokenType {
    match keyword(text) {
        Some(t) => t,
        None => TokenType::Identifier,
    }
}

/// An identifier or reserved word that begins at `start`.
pub open spec fn word_at(src: Seq<char>, start: int, line: nat) -> Step {
    let end = run_end(src, start + 1, alphanumerics());
    plain(src, start, end, word_type(src.subrange(start, end)), line)
}

/// Whether the character `c` stands right after position `at`.
pub open spec fn followed_by(src: Seq<char>, at: int, c: char) -> bool {
    at + 1 < src.len() && src[at + 1] == c
}

/// What stands at `start`, a position inside the text, on line `line`.
///
/// Two-character operators are preferred to their first character. `//`
/// begins a comment that runs to the end of the line. Blanks, tabs, carriage
/// returns and line ends are skipped, and a line end begins a new line. A
/// quote begins a string, a digit a number, an alphabetic character an
/// identifier or a reserved word; any other character is an error.
pub open spec fn scan_one(src: Seq<char>, start: int, line: nat) -> Step {
    let c = src[start];
    if let Some(token_type) = single(c) {
        plain(src, start, start + 1, token_type, line)
    } else if let Some((with_equal, alone)) = paired(c) {
        if followed_by(src, start, '=') {
            plain(src, start, start + 2, with_equal, line)
        } else {
            plain(src, start, start + 1, alone, line)
        }
    } else if c == '/' {
        if followed_by(src, start, '/') {
            Step { found: Found::Nothing, next: run_end(src, start + 2, line_body()), line }
        } else {
            plain(src, start, start + 1, TokenType::Slash, line)
        }
    } else if c == ' ' || c == '\r' || c == '\t' {
        Step { found: Found::Nothing, next: start + 1, line }
    } else if c == '\n' {
        Step { found: Found::Nothing, next: start + 1, line: line + 1 }
    } else if c == '"' {
        string_at(src, start, line)
    } else {
        match opening(c, is_alphabetic(c)) {
            Opening::Number => number_at(src, start, line),
            Opening::Word => word_at(src, start, line),
            Opening::Nothing => Step {
                found: Found::Error(ScanErrorView { line, message: unexpected_message() }),
                next: start + 1,
                line,
            },
        }
    }
}

/// The tokens and errors of a stretch of source text, and the line on which
/// the stretch ends.
pub struct Scan {
    pub tokens: Seq<TokenView>,
    pub errors: Seq<ScanErrorView>,
    pub line: nat,
}

/// A scan with what one step found put before it.
pub open spec fn after(found: Found, rest: Scan) -> Scan {
    match found {
        Found::Token(t) => Scan { tokens: seq![t] + rest.tokens, ..rest },
        Found::Nothing => rest,
        Found::Error(e) => Scan { errors: seq![e] + rest.errors, ..rest },
    }
}

/// The scan of the source text from `start`, which lies on line `line`, to
/// its end: what stands at `start`, then the scan from where the next step
/// begins. Every step reads at least one character and stays inside the
/// text, so the scan goes on until the text is used up.
pub open spec fn scan_from(src: Seq<char>, start: int, line: nat) -> Scan
    decreases src.len() - start,
{
    if 0 <= start < src.len() {
        let step = scan_one(src, start, line);
        if start < step.next <= src.len() {
            after(step.found, scan_from(src, step.next, step.line))
        } else {
            Scan { tokens: Seq::empty(), errors: Seq::empty(), line }
        }
    } else {
        Scan { tokens: Seq::empty(), errors: Seq::empty(), line }
    }
}

/// The token that ends every token stream.
pub open spec fn end_of_input(line: nat) -> TokenView {
    TokenView { token_type: TokenType::Eof, lexeme: Seq::empty(), literal: None, line }
}

/// The scan of a whole source text: its tokens in order, then the
/// end-of-input token on the last line, and its errors in order.
pub open spec fn scan(src: Seq<char>) -> Scan {
    let body = scan_from(src, 0, 1);
    Scan { tokens: body.tokens.push(end_of_input(body.line)), ..body }
}

} // verus!
