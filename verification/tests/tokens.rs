use katex::lexer::{tokenize, Lexer};
use katex::source_location::SourceLocation;
use katex::token::{LexerInterface, Token};

fn lex_all(input: &str) -> Vec<Token> {
    let mut lexer = Lexer::new(input, Some(7));
    let mut out = Vec::new();
    loop {
        let token = lexer.lex();
        if token.text == "EOF" {
            out.push(token);
            return out;
        }
        out.push(token);
    }
}

fn texts(tokens: &[Token]) -> Vec<String> {
    tokens.iter().map(|t| t.text.clone()).collect()
}

#[test]
fn new_token_has_no_flags() {
    let token = Token::new("x".to_string(), None);
    assert_eq!(token.text, "x");
    assert_eq!(token.loc, None);
    assert_eq!(token.noexpand, None);
    assert_eq!(token.treat_as_relax, None);
    assert!(!token.is_noexpand());
    assert!(!token.is_relax());
}

#[test]
fn range_merges_locations_of_one_lexer() {
    let a = SourceLocation::new(1, 2, 5);
    let b = SourceLocation::new(1, 7, 9);
    assert_eq!(SourceLocation::range(Some(&a), Some(&b)), Some(SourceLocation::new(1, 2, 9)));
}

#[test]
fn range_of_different_lexers_is_nothing() {
    let a = SourceLocation::new(1, 2, 5);
    let b = SourceLocation::new(2, 7, 9);
    assert_eq!(SourceLocation::range(Some(&a), Some(&b)), None);
}

#[test]
fn range_without_second_is_first() {
    let a = SourceLocation::new(1, 2, 5);
    assert_eq!(SourceLocation::range(Some(&a), None), Some(a));
    assert_eq!(SourceLocation::range(None, Some(&a)), None);
    assert_eq!(SourceLocation::range(None, None), None);
}

#[test]
fn token_range_spans_both_tokens() {
    let a = Token::new("{".to_string(), Some(SourceLocation::new(0, 1, 2)));
    let b = Token::new("}".to_string(), Some(SourceLocation::new(0, 8, 9)));
    let spanned = a.range(&b, "group".to_string());
    assert_eq!(spanned.text, "group");
    assert_eq!(spanned.loc, Some(SourceLocation::new(0, 1, 9)));
    assert_eq!(spanned.noexpand, None);
}

#[test]
fn tokens_and_locations_have_a_place() {
    let loc = SourceLocation::new(0, 1, 2);
    let token = Token::new("a".to_string(), Some(loc));
    assert_eq!(token.location(), Some(loc));
    assert_eq!(loc.location(), Some(loc));
    assert_eq!(Token::new("a".to_string(), None).location(), None);
}

#[test]
fn clone_keeps_a_token() {
    let mut token = Token::new("a".to_string(), Some(SourceLocation::new(0, 1, 2)));
    token.noexpand = Some(true);
    assert_eq!(token.clone(), token);
}

#[test]
fn lexer_cuts_characters_words_and_symbols() {
    let tokens = lex_all("a+\\alpha  b\\,c");
    assert_eq!(texts(&tokens), vec!["a", "+", "\\alpha", "b", "\\,", "c", "EOF"]);
    assert_eq!(tokens[2].loc, Some(SourceLocation::new(7, 2, 8)));
    assert_eq!(tokens[3].loc, Some(SourceLocation::new(7, 10, 11)));
    assert_eq!(tokens[6].loc, Some(SourceLocation::new(7, 14, 14)));
}

#[test]
fn lexer_reads_whitespace_as_one_space() {
    let tokens = lex_all("a \t\n b");
    assert_eq!(texts(&tokens), vec!["a", " ", "b", "EOF"]);
    assert_eq!(tokens[1].loc, Some(SourceLocation::new(7, 1, 5)));
}

#[test]
fn lexer_reads_control_space() {
    let tokens = lex_all("a\\  b");
    assert_eq!(texts(&tokens), vec!["a", "\\ ", "b", "EOF"]);
}

#[test]
fn lexer_passes_over_comments() {
    let tokens = lex_all("a% note\nb%rest");
    assert_eq!(texts(&tokens), vec!["a", "b", "EOF"]);
}

#[test]
fn lexer_leaves_a_lone_backslash() {
    let tokens = lex_all("a\\");
    assert_eq!(texts(&tokens), vec!["a", "\\", "EOF"]);
}

#[test]
fn lexer_repeats_the_end_marker() {
    let mut lexer = Lexer::new("", Some(0));
    assert_eq!(lexer.lex().text, "EOF");
    assert_eq!(lexer.lex().text, "EOF");
}

#[test]
fn tokenize_gives_tokens_without_place() {
    let tokens = tokenize("\\frac{a}");
    assert_eq!(texts(&tokens), vec!["\\frac", "{", "a", "}"]);
    assert!(tokens.iter().all(|t| t.loc.is_none()));
}
