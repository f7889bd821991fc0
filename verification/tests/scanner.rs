use loxide::number::Decimal;
use loxide::scanner::{opening_of, Literal, Opening, Scanner, Token, TokenType};

fn number(value: f64) -> Option<Literal> {
    Some(Literal::Number(Decimal::parse(&value.to_string()).unwrap()))
}

#[test]
fn test_scan_tokens() {
    let mut scanner = Scanner::new("-123 * 45.67".to_string());
    let tokens = scanner.scan_tokens();
    assert_eq!(
        tokens[0],
        Token::new(TokenType::Minus, "-".to_string(), None, 1)
    );
    assert_eq!(
        tokens[1],
        Token::new(TokenType::Number, "123".to_string(), number(123.0), 1)
    );
    assert_eq!(
        tokens[2],
        Token::new(TokenType::Star, "*".to_string(), None, 1)
    );
    assert_eq!(
        tokens[3],
        Token::new(TokenType::Number, "45.67".to_string(), number(45.67), 1)
    );
    assert_eq!(
        tokens[4],
        Token::new(TokenType::Eof, "".to_string(), None, 1)
    );
}

#[test]
fn test_scan_string() {
    let mut scanner = Scanner::new("\"hello\"".to_string());
    let tokens = scanner.scan_tokens();
    assert_eq!(
        tokens[0],
        Token::new(
            TokenType::String,
            "\"hello\"".to_string(),
            Some(Literal::Text("hello".to_string())),
            1
        )
    );
    assert_eq!(
        tokens[1],
        Token::new(TokenType::Eof, "".to_string(), None, 1)
    );
}

// Test for scanning with comments
#[test]
fn test_scan_tokens_with_comments() {
    let mut scanner = Scanner::new("1 + 2 // 3 + 4".to_string());
    let tokens = scanner.scan_tokens();
    assert_eq!(
        tokens[0],
        Token::new(TokenType::Number, "1".to_string(), number(1.0), 1)
    );
    assert_eq!(
        tokens[1],
        Token::new(TokenType::Plus, "+".to_string(), None, 1)
    );
    assert_eq!(
        tokens[2],
        Token::new(TokenType::Number, "2".to_string(), number(2.0), 1)
    );
    assert_eq!(
        tokens[3],
        Token::new(TokenType::Eof, "".to_string(), None, 1)
    );
}

fn scan(source: &str) -> (Vec<Token>, Vec<(usize, String)>) {
    let mut scanner = Scanner::new(source.to_string());
    let tokens = scanner.scan_tokens().clone();
    let errors = scanner
        .errors()
        .iter()
        .map(|e| (e.line, e.message.clone()))
        .collect();
    (tokens, errors)
}

fn kinds(tokens: &[Token]) -> Vec<TokenType> {
    tokens.iter().map(|t| t.token_type).collect()
}

fn lexemes(tokens: &[Token]) -> Vec<String> {
    tokens.iter().map(|t| t.lexeme.clone()).collect()
}

#[test]
fn empty_source_is_one_end_of_input_token() {
    let (tokens, errors) = scan("");
    assert_eq!(tokens.len(), 1);
    assert_eq!(tokens[0].token_type, TokenType::Eof);
    assert_eq!(tokens[0].lexeme, "");
    assert!(tokens[0].literal.is_none());
    assert_eq!(tokens[0].line, 1);
    assert!(errors.is_empty());
}

#[test]
fn punctuation_is_one_token_each() {
    let (tokens, errors) = scan("(){},.-+;*/");
    assert_eq!(
        kinds(&tokens),
        vec![
            TokenType::LeftParen,
            TokenType::RightParen,
            TokenType::LeftBrace,
            TokenType::RightBrace,
            TokenType::Comma,
            TokenType::Dot,
            TokenType::Minus,
            TokenType::Plus,
            TokenType::Semicolon,
            TokenType::Star,
            TokenType::Slash,
            TokenType::Eof,
        ]
    );
    assert_eq!(
        lexemes(&tokens),
        vec!["(", ")", "{", "}", ",", ".", "-", "+", ";", "*", "/", ""]
    );
    assert!(errors.is_empty());
}

#[test]
fn two_character_operators_are_preferred() {
    let (tokens, errors) = scan("! != = == < <= > >=");
    assert_eq!(
        kinds(&tokens),
        vec![
            TokenType::Bang,
            TokenType::BangEqual,
            TokenType::Equal,
            TokenType::EqualEqual,
            TokenType::Less,
            TokenType::LessEqual,
            TokenType::Greater,
            TokenType::GreaterEqual,
            TokenType::Eof,
        ]
    );
    assert_eq!(
        lexemes(&tokens),
        vec!["!", "!=", "=", "==", "<", "<=", ">", ">=", ""]
    );
    assert!(errors.is_empty());
}

#[test]
fn three_equals_are_a_pair_and_a_single() {
    let (tokens, _) = scan("===");
    assert_eq!(
        kinds(&tokens),
        vec![TokenType::EqualEqual, TokenType::Equal, TokenType::Eof]
    );
}

#[test]
fn an_operator_at_the_end_stands_alone() {
    let (tokens, errors) = scan("<");
    assert_eq!(kinds(&tokens), vec![TokenType::Less, TokenType::Eof]);
    assert!(errors.is_empty());
}

#[test]
fn blanks_make_no_token_and_no_line() {
    let (tokens, errors) = scan(" \t\r ");
    assert_eq!(kinds(&tokens), vec![TokenType::Eof]);
    assert_eq!(tokens[0].line, 1);
    assert!(errors.is_empty());
}

#[test]
fn line_ends_count_lines() {
    let (tokens, _) = scan("1\n2\n\n3");
    assert_eq!(
        tokens.iter().map(|t| t.line).collect::<Vec<_>>(),
        vec![1, 2, 4, 4]
    );
}

#[test]
fn the_end_of_input_token_carries_the_last_line() {
    let (tokens, _) = scan("\n\n");
    assert_eq!(tokens.len(), 1);
    assert_eq!(tokens[0].token_type, TokenType::Eof);
    assert_eq!(tokens[0].line, 3);
}

#[test]
fn a_comment_runs_to_the_end_of_its_line() {
    let (tokens, errors) = scan("1 // one\n2");
    assert_eq!(
        kinds(&tokens),
        vec![TokenType::Number, TokenType::Number, TokenType::Eof]
    );
    assert_eq!(tokens[1].lexeme, "2");
    assert_eq!(tokens[1].line, 2);
    assert!(errors.is_empty());
}

#[test]
fn a_comment_may_end_the_text() {
    let (tokens, errors) = scan("//");
    assert_eq!(kinds(&tokens), vec![TokenType::Eof]);
    assert!(errors.is_empty());
}

#[test]
fn a_string_carries_its_text_without_the_quotes() {
    let (tokens, errors) = scan("\"a b\\n\"");
    assert_eq!(kinds(&tokens), vec![TokenType::String, TokenType::Eof]);
    assert_eq!(tokens[0].lexeme, "\"a b\\n\"");
    match &tokens[0].literal {
        Some(Literal::Text(s)) => assert_eq!(s, "a b\\n"),
        other => panic!("no text: {:?}", other),
    }
    assert!(errors.is_empty());
}

#[test]
fn an_empty_string_is_a_token() {
    let (tokens, errors) = scan("\"\"");
    assert_eq!(kinds(&tokens), vec![TokenType::String, TokenType::Eof]);
    match &tokens[0].literal {
        Some(Literal::Text(s)) => assert_eq!(s, ""),
        other => panic!("no text: {:?}", other),
    }
    assert!(errors.is_empty());
}

#[test]
fn a_string_may_hold_characters_of_any_script() {
    let (tokens, errors) = scan("\"h\u{e9}llo \u{4e16}\u{754c}\" + 1");
    assert_eq!(
        kinds(&tokens),
        vec![
            TokenType::String,
            TokenType::Plus,
            TokenType::Number,
            TokenType::Eof
        ]
    );
    assert_eq!(tokens[0].lexeme, "\"h\u{e9}llo \u{4e16}\u{754c}\"");
    match &tokens[0].literal {
        Some(Literal::Text(s)) => assert_eq!(s, "h\u{e9}llo \u{4e16}\u{754c}"),
        other => panic!("no text: {:?}", other),
    }
    assert!(errors.is_empty());
}

#[test]
fn a_string_over_several_lines_stands_on_its_last_line() {
    let (tokens, errors) = scan("\"a\nb\nc\" 1");
    assert_eq!(
        kinds(&tokens),
        vec![TokenType::String, TokenType::Number, TokenType::Eof]
    );
    assert_eq!(tokens[0].line, 3);
    assert_eq!(tokens[1].line, 3);
    match &tokens[0].literal {
        Some(Literal::Text(s)) => assert_eq!(s, "a\nb\nc"),
        other => panic!("no text: {:?}", other),
    }
    assert!(errors.is_empty());
}

#[test]
fn an_unterminated_string_is_one_error_and_no_token() {
    let (tokens, errors) = scan("1 + \"abc");
    assert_eq!(
        kinds(&tokens),
        vec![TokenType::Number, TokenType::Plus, TokenType::Eof]
    );
    assert_eq!(errors, vec![(1, "Unterminated string.".to_string())]);
}

#[test]
fn an_unterminated_string_is_reported_on_the_last_line() {
    let (tokens, errors) = scan("\"abc\ndef\n");
    assert_eq!(kinds(&tokens), vec![TokenType::Eof]);
    assert_eq!(tokens[0].line, 3);
    assert_eq!(errors, vec![(3, "Unterminated string.".to_string())]);
}

#[test]
fn a_lone_quote_is_an_unterminated_string() {
    let (tokens, errors) = scan("\"");
    assert_eq!(kinds(&tokens), vec![TokenType::Eof]);
    assert_eq!(errors, vec![(1, "Unterminated string.".to_string())]);
}

#[test]
fn a_number_carries_its_decimal() {
    let (tokens, errors) = scan("45.67");
    assert_eq!(kinds(&tokens), vec![TokenType::Number, TokenType::Eof]);
    assert_eq!(tokens[0].lexeme, "45.67");
    match &tokens[0].literal {
        Some(Literal::Number(d)) => {
            assert_eq!(d.to_text(), "45.67");
            assert_eq!(d.scale(), 2);
        }
        other => panic!("no number: {:?}", other),
    }
    assert!(errors.is_empty());
}

#[test]
fn a_whole_number_has_no_digits_after_the_point() {
    let (tokens, _) = scan("007");
    match &tokens[0].literal {
        Some(Literal::Number(d)) => {
            assert_eq!(d.to_text(), "007");
            assert_eq!(d.scale(), 0);
        }
        other => panic!("no number: {:?}", other),
    }
}

#[test]
fn a_number_parses_to_the_value_it_writes() {
    for source in ["0", "1", "123", "45.67", "0.5", "1234567890.0123456789", "3.0"] {
        let (tokens, errors) = scan(source);
        assert_eq!(kinds(&tokens), vec![TokenType::Number, TokenType::Eof]);
        assert_eq!(tokens[0].lexeme, source);
        match &tokens[0].literal {
            Some(Literal::Number(d)) => assert_eq!(
                d.to_text().parse::<f64>().unwrap(),
                source.parse::<f64>().unwrap()
            ),
            other => panic!("no number: {:?}", other),
        }
        assert!(errors.is_empty());
    }
}

#[test]
fn a_point_without_a_digit_after_it_is_no_part_of_a_number() {
    let (tokens, errors) = scan("12.");
    assert_eq!(
        kinds(&tokens),
        vec![TokenType::Number, TokenType::Dot, TokenType::Eof]
    );
    assert_eq!(lexemes(&tokens), vec!["12", ".", ""]);
    assert!(errors.is_empty());
}

#[test]
fn a_point_before_a_digit_is_no_part_of_a_number() {
    let (tokens, _) = scan(".5");
    assert_eq!(
        kinds(&tokens),
        vec![TokenType::Dot, TokenType::Number, TokenType::Eof]
    );
}

#[test]
fn a_number_has_one_point_at_most() {
    let (tokens, _) = scan("1.2.3");
    assert_eq!(
        kinds(&tokens),
        vec![
            TokenType::Number,
            TokenType::Dot,
            TokenType::Number,
            TokenType::Eof
        ]
    );
    assert_eq!(lexemes(&tokens), vec!["1.2", ".", "3", ""]);
}

#[test]
fn a_number_ends_where_a_letter_begins() {
    let (tokens, _) = scan("12ab");
    assert_eq!(
        kinds(&tokens),
        vec![TokenType::Number, TokenType::Identifier, TokenType::Eof]
    );
    assert_eq!(lexemes(&tokens), vec!["12", "ab", ""]);
}

#[test]
fn reserved_words_have_their_own_categories() {
    let (tokens, errors) = scan(
        "and class else false for fun if nil or print return super this true var while",
    );
    assert_eq!(
        kinds(&tokens),
        vec![
            TokenType::And,
            TokenType::Class,
            TokenType::Else,
            TokenType::False,
            TokenType::For,
            TokenType::Fun,
            TokenType::If,
            TokenType::Nil,
            TokenType::Or,
            TokenType::Print,
            TokenType::Return,
            TokenType::Super,
            TokenType::This,
            TokenType::True,
            TokenType::Var,
            TokenType::While,
            TokenType::Eof,
        ]
    );
    assert!(tokens.iter().all(|t| t.literal.is_none()));
    assert!(errors.is_empty());
}

#[test]
fn other_words_are_identifiers() {
    let (tokens, errors) = scan("andy classy x1 If \u{e9}t\u{e9}");
    assert_eq!(
        kinds(&tokens),
        vec![
            TokenType::Identifier,
            TokenType::Identifier,
            TokenType::Identifier,
            TokenType::Identifier,
            TokenType::Identifier,
            TokenType::Eof,
        ]
    );
    assert_eq!(
        lexemes(&tokens),
        vec!["andy", "classy", "x1", "If", "\u{e9}t\u{e9}", ""]
    );
    assert!(tokens.iter().all(|t| t.literal.is_none()));
    assert!(errors.is_empty());
}

#[test]
fn an_unexpected_character_is_an_error_and_is_skipped() {
    let (tokens, errors) = scan("1 @ 2");
    assert_eq!(
        kinds(&tokens),
        vec![TokenType::Number, TokenType::Number, TokenType::Eof]
    );
    assert_eq!(errors, vec![(1, "Unexpected character.".to_string())]);
}

#[test]
fn an_underscore_begins_no_identifier() {
    let (tokens, errors) = scan("_a");
    assert_eq!(kinds(&tokens), vec![TokenType::Identifier, TokenType::Eof]);
    assert_eq!(tokens[0].lexeme, "a");
    assert_eq!(errors, vec![(1, "Unexpected character.".to_string())]);
}

#[test]
fn errors_are_reported_in_order_with_their_lines() {
    let (tokens, errors) = scan("#\n$ 1\n\"open");
    assert_eq!(kinds(&tokens), vec![TokenType::Number, TokenType::Eof]);
    assert_eq!(
        errors,
        vec![
            (1, "Unexpected character.".to_string()),
            (2, "Unexpected character.".to_string()),
            (3, "Unterminated string.".to_string()),
        ]
    );
}

#[test]
fn every_stream_ends_with_exactly_one_end_of_input_token() {
    for source in ["", " ", "1", "\"x", "a b c", "//", "@", "(((", "1.", "\n"] {
        let (tokens, _) = scan(source);
        let ends = tokens
            .iter()
            .filter(|t| t.token_type == TokenType::Eof)
            .count();
        assert_eq!(ends, 1, "for {:?}", source);
        assert_eq!(tokens.last().unwrap().token_type, TokenType::Eof);
        assert_eq!(tokens.last().unwrap().lexeme, "");
    }
}

#[test]
fn scanning_again_adds_one_more_end_of_input_token() {
    let mut scanner = Scanner::new("1".to_string());
    assert_eq!(scanner.scan_tokens().len(), 2);
    assert_eq!(scanner.scan_tokens().len(), 3);
    assert_eq!(
        kinds(scanner.tokens()),
        vec![TokenType::Number, TokenType::Eof, TokenType::Eof]
    );
}

#[test]
fn tokens_are_equal_by_category_and_lexeme() {
    let a = Token::new(TokenType::Number, "1".to_string(), number(1.0), 1);
    let b = Token::new(TokenType::Number, "1".to_string(), None, 7);
    let c = Token::new(TokenType::Number, "2".to_string(), number(1.0), 1);
    let d = Token::new(TokenType::String, "1".to_string(), number(1.0), 1);
    assert_eq!(a, b);
    assert_ne!(a, c);
    assert_ne!(a, d);
}

#[test]
fn a_copy_of_a_token_holds_what_the_token_holds() {
    let a = Token::new(TokenType::Number, "45.67".to_string(), number(45.67), 3);
    let b = a.clone();
    assert_eq!(b.token_type, TokenType::Number);
    assert_eq!(b.lexeme, "45.67");
    assert_eq!(b.line, 3);
    match b.literal {
        Some(Literal::Number(d)) => assert_eq!(d.to_text(), "45.67"),
        other => panic!("no number: {:?}", other),
    }
}

#[test]
fn a_token_is_described_by_category_lexeme_and_payload() {
    let (tokens, _) = scan("-123 * 45.67 \"a b\" while");
    let described: Vec<String> = tokens.iter().map(|t| t.describe()).collect();
    assert_eq!(
        described,
        vec![
            "Minus - ",
            "Number 123 123",
            "Star * ",
            "Number 45.67 45.67",
            "String \"a b\" a b",
            "While while ",
            "Eof  ",
        ]
    );
    assert_eq!(Literal::Boolean(true).to_text(), "true");
    assert_eq!(Literal::Boolean(false).to_text(), "false");
}

#[test]
fn a_character_opens_a_number_a_word_or_nothing() {
    assert_eq!(opening_of('0', false), Opening::Number);
    assert_eq!(opening_of('9', false), Opening::Number);
    assert_eq!(opening_of('5', true), Opening::Number);
    assert_eq!(opening_of('a', true), Opening::Word);
    assert_eq!(opening_of('\u{e9}', true), Opening::Word);
    assert_eq!(opening_of('_', false), Opening::Nothing);
    assert_eq!(opening_of('/', false), Opening::Nothing);
    assert_eq!(opening_of(':', false), Opening::Nothing);
    assert_eq!(opening_of('\u{b2}', false), Opening::Nothing);
}

#[test]
fn a_digit_of_another_script_begins_no_number() {
    let (tokens, errors) = scan("\u{663}");
    assert_eq!(kinds(&tokens), vec![TokenType::Eof]);
    assert_eq!(errors, vec![(1, "Unexpected character.".to_string())]);
}
