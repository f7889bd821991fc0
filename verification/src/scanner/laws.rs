//! What holds of every scan.
use crate::number::{is_numeral, lemma_numeral_shape, numeral};
use crate::scanner::rules::{
    Found, Scan, ScanErrorView, alphanumerics, end_of_input, has_fraction, line_body, newlines,
    scan, scan_from, scan_one, string_body, unterminated_message, whole_end,
};
use crate::scanner::token::{LiteralView, TokenType, TokenView};
use crate::text::{digits, lemma_run_end, lemma_run_end_is};
use vstd::prelude::*;

verus! {

/// Every step of scanning reads at least one character and stays inside the
/// text.
pub proof fn lemma_scan_one_advances(src: Seq<char>, start: int, line: nat)
    requires
        0 <= start < src.len(),
    ensures
        start < scan_one(src, start, line).next <= src.len(),
{
    lemma_run_end(src, start + 1, string_body());
    lemma_run_end(src, start + 1, alphanumerics());
    lemma_run_end(src, start, digits());
    if start + 2 <= src.len() {
        lemma_run_end(src, start + 2, line_body());
    }
    let point = whole_end(src, start);
    if has_fraction(src, start) {
        lemma_run_end(src, point + 1, digits());
    }
}

/// No step of scanning yields the end-of-input token.
pub proof fn lemma_scan_one_has_no_end(src: Seq<char>, start: int, line: nat)
    requires
        0 <= start < src.len(),
    ensures
        scan_one(src, start, line).found matches Found::Token(t) ==> t.token_type
            != TokenType::Eof,
{
}

/// The end-of-input token is not among the tokens of a stretch of text.
pub proof fn lemma_scan_from_has_no_end(src: Seq<char>, start: int, line: nat)
    ensures
        forall|i: int|
            0 <= i < scan_from(src, start, line).tokens.len() ==> (#[trigger] scan_from(
                src,
                start,
                line,
            ).tokens[i]).token_type != TokenType::Eof,
    decreases src.len() - start,
{
    if 0 <= start < src.len() {
        let step = scan_one(src, start, line);
        if start < step.next <= src.len() {
            lemma_scan_one_has_no_end(src, start, line);
            lemma_scan_from_has_no_end(src, step.next, step.line);
        }
    }
}

/// Every token stream ends with the end-of-input token, and holds no other:
/// whatever the source text is, the scan of it has at least one token, the
/// last is the end-of-input token, on the line that the text ends on, and no
/// token before it is one.
pub proof fn lemma_scan_ends_once(src: Seq<char>)
    ensures
        scan(src).tokens.len() >= 1,
        scan(src).tokens.last() == end_of_input(scan(src).line),
        forall|i: int|
            0 <= i < scan(src).tokens.len() - 1 ==> (#[trigger] scan(src).tokens[i]).token_type
                != TokenType::Eof,
{
    lemma_scan_from_has_no_end(src, 0, 1);
    assert forall|i: int| 0 <= i < scan(src).tokens.len() - 1 implies (#[trigger] scan(
        src,
    ).tokens[i]).token_type != TokenType::Eof by {}
}

/// The number token that a numeral alone on the first line makes.
pub open spec fn number_token(s: Seq<char>) -> TokenView {
    TokenView {
        token_type: TokenType::Number,
        lexeme: s,
        literal: Some(LiteralView::Number(numeral(s))),
        line: 1,
    }
}

/// Scanning a numeral yields one number token, whose lexeme is the numeral
/// and whose payload is the decimal that the numeral writes, then the
/// end-of-input token, and no error.
pub proof fn lemma_scan_numeral(s: Seq<char>)
    requires
        is_numeral(s),
    ensures
        scan(s).tokens == seq![number_token(s), end_of_input(1)],
        scan(s).errors == Seq::<ScanErrorView>::empty(),
{
    lemma_numeral_shape(s);
    lemma_run_end(s, 0, digits());
    let point = whole_end(s, 0);
    if point < s.len() {
        lemma_run_end(s, point + 1, digits());
    }
    // The number is the whole text, and nothing is left behind it.
    assert(s.subrange(0, s.len() as int) == s);
    assert(scan_one(s, 0, 1).next == s.len());
    assert(scan_from(s, s.len() as int, 1).tokens.len() == 0);
}

/// The string token that a quoted text without quotes inside makes when it
/// begins on the first line.
pub open spec fn string_token(s: Seq<char>) -> TokenView {
    TokenView {
        token_type: TokenType::String,
        lexeme: seq!['"'] + s + seq!['"'],
        literal: Some(LiteralView::Text(s)),
        line: 1 + newlines(s),
    }
}

/// Scanning a text in quotes yields one string token whose payload is the
/// text, unchanged, then the end-of-input token, and no error. Both tokens
/// stand on the line that the string ends on.
pub proof fn lemma_scan_string(s: Seq<char>)
    requires
        forall|i: int| 0 <= i < s.len() ==> s[i] != '"',
    ensures
        scan(seq!['"'] + s + seq!['"']).tokens == seq![
            string_token(s),
            end_of_input(1 + newlines(s)),
        ],
        scan(seq!['"'] + s + seq!['"']).errors == Seq::<ScanErrorView>::empty(),
{
    let text = seq!['"'] + s + seq!['"'];
    let close: int = s.len() as int + 1;
    assert forall|i: int| 1 <= i < close implies string_body()(#[trigger] text[i]) by {}
    lemma_run_end_is(text, 1, close, string_body());
    // The string is the whole text, and nothing is left behind it.
    assert(text.subrange(1, close) == s);
    assert(text.subrange(0, close + 1) == text);
    assert(scan_one(text, 0, 1).next == text.len());
    assert(scan_from(text, text.len() as int, 1 + newlines(s)).tokens.len() == 0);
}

/// A string that is never closed is one error and nothing else: from its
/// opening quote on, scanning makes no token, reports once that the string
/// is unterminated, on the last line of the text, and reaches the end.
pub proof fn lemma_scan_unterminated(src: Seq<char>, start: int, line: nat)
    requires
        0 <= start < src.len(),
        src[start] == '"',
        forall|i: int| start < i < src.len() ==> src[i] != '"',
    ensures
        scan_from(src, start, line) == (Scan {
            tokens: Seq::empty(),
            errors: seq![
                ScanErrorView {
                    line: line + newlines(src.subrange(start + 1, src.len() as int)),
                    message: unterminated_message(),
                },
            ],
            line: line + newlines(src.subrange(start + 1, src.len() as int)),
        }),
{
    assert forall|i: int| start + 1 <= i < src.len() implies string_body()(#[trigger] src[i]) by {}
    lemma_run_end_is(src, start + 1, src.len() as int, string_body());
    // The error uses up the text, and nothing is left behind it.
    let step = scan_one(src, start, line);
    assert(step.next == src.len());
    assert(scan_from(src, src.len() as int, step.line).errors.len() == 0);
}

} // verus!
