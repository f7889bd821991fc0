//! The front of the pipeline: the diagnostics that show errors, and the run
//! of a source text through the scanner and the parser.
use crate::number::{Number, is_numeral, numeral};
use crate::parser::expr::replay;
use crate::parser::grammar::{ParseErrorView, lemma_parse_literal, literal, parse_expression};
use crate::parser::value::{ArithmeticView, OutcomeView, ValueView};
use crate::parser::{Expr, ExprView, Parser};
use crate::scanner::laws::{lemma_scan_numeral, lemma_scan_string};
use crate::scanner::rules::{ScanErrorView, scan};
use crate::scanner::{LiteralView, ScanError, Scanner, Token, error_views};
use crate::text::{decimal_numeral, push_decimal, push_text};
use vstd::prelude::*;

verus! {

/// The diagnostic for an error on line `line`: `[line N] Error WHERE: WHAT`.
pub open spec fn diagnostic(line: nat, location: Seq<char>, message: Seq<char>) -> Seq<char> {
    "[line "@ + decimal_numeral(line) + "] Error "@ + location + ": "@ + message
}

/// The diagnostic for an error whose place in the line is not known.
pub fn error(line: usize, message: &str) -> (s: String)
    ensures
        s@ == diagnostic(line as nat, Seq::empty(), message@),
{
    proof {
        reveal_strlit("");
    }
    report(line, "", message)
}

/// The diagnostic for an error at `location` on line `line`.
pub fn report(line: usize, location: &str, message: &str) -> (s: String)
    ensures
        s@ == diagnostic(line as nat, location@, message@),
{
    let mut s: String = String::new();
    push_text(&mut s, "[line ");
    push_decimal(&mut s, line);
    push_text(&mut s, "] Error ");
    push_text(&mut s, location);
    push_text(&mut s, ": ");
    push_text(&mut s, message);
    s
}

/// What the scanner and the parser make of a source text: the diagnostics
/// to show, in order, and the expression, if the text is one.
pub struct Reading {
    pub diagnostics: Vec<String>,
    pub expression: Option<Expr>,
}

/// The texts of a run of strings, one by one.
pub open spec fn texts(strings: Seq<String>) -> Seq<Seq<char>> {
    strings.map_values(|s: String| s@)
}

/// The diagnostics of a run of scan errors, one by one.
pub open spec fn scan_diagnostics(errors: Seq<ScanErrorView>) -> Seq<Seq<char>> {
    errors.map_values(|e: ScanErrorView| diagnostic(e.line, Seq::empty(), e.message))
}

/// The diagnostic of a parse error: it is shown under the line of the token
/// at which parsing failed.
pub open spec fn parse_diagnostic(error: ParseErrorView) -> Seq<char> {
    diagnostic(error.token.line, Seq::empty(), error.message)
}

/// Scans and parses a source text.
///
/// Every scan error is a diagnostic, in the order of the text. What was
/// scanned is parsed as one expression even where there were scan errors;
/// a parse error is one more diagnostic, after the others, and then there is
/// no expression.
pub fn run(source: String) -> (reading: Reading)
    requires
        source@.len() < usize::MAX,
    ensures
        match parse_expression(scan(source@).tokens, 0).result {
            Ok(e) => {
                &&& reading.expression matches Some(expression) && expression@ == e
                &&& texts(reading.diagnostics@) == scan_diagnostics(scan(source@).errors)
            },
            Err(e) => {
                &&& reading.expression is None
                &&& texts(reading.diagnostics@) == scan_diagnostics(scan(source@).errors).push(
                    parse_diagnostic(e),
                )
            },
        },
{
    let mut scanner: Scanner = Scanner::new(source);
    scanner.scan_tokens();
    let mut diagnostics: Vec<String> = Vec::new();
    let errors: &Vec<ScanError> = scanner.errors();
    let mut i: usize = 0;
    while i < errors.len()
        invariant
            i <= errors@.len(),
            texts(diagnostics@) == scan_diagnostics(error_views(errors@).take(i as int)),
        decreases errors@.len() - i,
    {
        let e: &ScanError = &errors[i];
        let line: String = error(e.line, e.message.as_str());
        diagnostics.push(line);
        proof {
            let seen = error_views(errors@).take(i as int);
            assert(error_views(errors@).take(i + 1) =~= seen.push(e@));
            assert(scan_diagnostics(seen.push(e@)) =~= scan_diagnostics(seen).push(line@));
        }
        i += 1;
    }
    let tokens: Vec<Token> = scanner.into_tokens();
    let mut parser: Parser = Parser::new(tokens);
    match parser.parse() {
        Ok(expression) => Reading { diagnostics, expression: Some(expression) },
        Err(e) => {
            let ghost before = texts(diagnostics@);
            diagnostics.push(error(e.token.line, e.message.as_str()));
            assert(texts(diagnostics@) =~= before.push(parse_diagnostic(e@)));
            Reading { diagnostics, expression: None }
        },
    }
}

/// A numeral goes through the pipeline unchanged: scanned and parsed it is
/// a literal that holds the decimal which the numeral writes; evaluated it
/// asks for the rounding of exactly that decimal, and its value is the
/// number that it is answered with.
pub proof fn lemma_numeral_is_rounded(s: Seq<char>, answer: Number)
    requires
        is_numeral(s),
    ensures
        scan(s).errors.len() == 0,
        parse_expression(scan(s).tokens, 0) == literal(Some(LiteralView::Number(numeral(s))), 1),
        replay(
            ExprView::Literal { value: Some(LiteralView::Number(numeral(s))) },
            Seq::empty(),
        ).outcome == OutcomeView::Needs(ArithmeticView::Round(numeral(s))),
        replay(
            ExprView::Literal { value: Some(LiteralView::Number(numeral(s))) },
            seq![answer],
        ).outcome == OutcomeView::Value(ValueView::Number(answer)),
{
    lemma_scan_numeral(s);
    lemma_parse_literal(scan(s).tokens, 0);
}

/// A text in quotes goes through the pipeline unchanged: scanned, parsed and
/// evaluated it is the text between the quotes, and no arithmetic is asked
/// for.
pub proof fn lemma_string_is_kept(s: Seq<char>)
    requires
        forall|i: int| 0 <= i < s.len() ==> s[i] != '"',
    ensures
        scan(seq!['"'] + s + seq!['"']).errors.len() == 0,
        parse_expression(scan(seq!['"'] + s + seq!['"']).tokens, 0) == literal(
            Some(LiteralView::Text(s)),
            1,
        ),
        replay(
            ExprView::Literal { value: Some(LiteralView::Text(s)) },
            Seq::empty(),
        ).outcome == OutcomeView::Value(ValueView::Text(s)),
{
    lemma_scan_string(s);
    lemma_parse_literal(scan(seq!['"'] + s + seq!['"']).tokens, 0);
}

} // verus!
