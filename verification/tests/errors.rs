use katex::lexer::Lexer;
use katex::parse_error::{ParseError, ParseErrorKind};
use katex::source_location::SourceLocation;
use katex::token::Token;

fn token(lexer: usize, start: usize, end: usize) -> Token {
    Token::new("x".to_string(), Some(SourceLocation::new(lexer, start, end)))
}

#[test]
fn error_without_token_has_no_position() {
    let source = Lexer::new("abc", Some(0));
    let err = ParseError::new(ParseErrorKind::UnexpectedToken, "oops", None, &source);
    assert_eq!(err.kind, ParseErrorKind::UnexpectedToken);
    assert_eq!(err.position, None);
    assert_eq!(err.length, None);
    assert_eq!(err.raw_message, "oops");
    assert_eq!(err.message, "KaTeX parse error: oops");
    assert_eq!(err.to_string(), "KaTeX parse error: oops");
}

#[test]
fn error_at_synthetic_token_has_no_position() {
    let source = Lexer::new("abc", Some(0));
    let synthetic = Token::new("x".to_string(), None);
    let err = ParseError::new(ParseErrorKind::UnexpectedToken, "oops", Some(&synthetic), &source);
    assert_eq!(err.position, None);
    assert_eq!(err.message, "KaTeX parse error: oops");
}

#[test]
fn error_at_token_of_another_lexer_has_no_position() {
    let source = Lexer::new("abc", Some(0));
    let err =
        ParseError::new(ParseErrorKind::UnexpectedToken, "oops", Some(&token(1, 0, 1)), &source);
    assert_eq!(err.position, None);
    assert_eq!(err.length, None);
}

#[test]
fn error_with_range_out_of_order_or_out_of_the_input_has_no_position() {
    let source = Lexer::new("abc", Some(0));
    let err =
        ParseError::new(ParseErrorKind::UnexpectedToken, "oops", Some(&token(0, 2, 1)), &source);
    assert_eq!(err.position, None);
    let err =
        ParseError::new(ParseErrorKind::UnexpectedToken, "oops", Some(&token(0, 2, 4)), &source);
    assert_eq!(err.position, None);
}

#[test]
fn error_shows_position_and_underlined_token() {
    let source = Lexer::new("a+b", Some(0));
    let err =
        ParseError::new(ParseErrorKind::UnexpectedToken, "oops", Some(&token(0, 1, 2)), &source);
    assert_eq!(err.position, Some(1));
    assert_eq!(err.length, Some(1));
    assert_eq!(err.message, "KaTeX parse error: oops at position 2: a+\u{0332}b");
    assert_eq!(err.raw_message, "oops");
}

#[test]
fn error_at_end_of_input_says_so() {
    let source = Lexer::new("a+b", Some(0));
    let err =
        ParseError::new(ParseErrorKind::UnexpectedEof, "oops", Some(&token(0, 3, 3)), &source);
    assert_eq!(err.position, Some(3));
    assert_eq!(err.length, Some(0));
    assert_eq!(err.message, "KaTeX parse error: oops at end of input: a+b");
}

#[test]
fn error_cuts_context_to_fifteen_characters() {
    let input = "0123456789abcdefghijXYklmnopqrstuvwxyz0123";
    let source = Lexer::new(input, Some(0));
    let err =
        ParseError::new(ParseErrorKind::UnexpectedToken, "oops", Some(&token(0, 20, 22)), &source);
    assert_eq!(err.position, Some(20));
    assert_eq!(err.length, Some(2));
    assert_eq!(
        err.message,
        "KaTeX parse error: oops at position 21: \u{2026}56789abcdefghijX\u{0332}Y\u{0332}klmnopqrstuvwxy\u{2026}"
    );
}

#[test]
fn error_keeps_context_of_exactly_fifteen_characters() {
    let input = "0123456789abcdeXklmnopqrstuvwxy";
    let source = Lexer::new(input, Some(0));
    let err =
        ParseError::new(ParseErrorKind::UnexpectedToken, "oops", Some(&token(0, 15, 16)), &source);
    assert_eq!(
        err.message,
        "KaTeX parse error: oops at position 16: 0123456789abcdeX\u{0332}klmnopqrstuvwxy"
    );
}

#[test]
fn error_does_not_underline_line_breaks() {
    let source = Lexer::new("a\nb", Some(0));
    let err =
        ParseError::new(ParseErrorKind::UnexpectedToken, "oops", Some(&token(0, 0, 3)), &source);
    assert_eq!(err.message, "KaTeX parse error: oops at position 1: a\u{0332}\nb\u{0332}");
}

#[test]
fn error_position_is_written_in_decimal() {
    let input = "x".repeat(1234);
    let source = Lexer::new(&input, Some(0));
    let err = ParseError::new(
        ParseErrorKind::UnexpectedToken,
        "oops",
        Some(&token(0, 1233, 1234)),
        &source,
    );
    assert!(err.message.starts_with("KaTeX parse error: oops at position 1234: \u{2026}"));
}
