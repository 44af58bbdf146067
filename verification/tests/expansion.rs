use katex::macro_expander::MacroExpander;
use katex::namespace::{MacroDefinition, MacroExpansion};
use katex::parse_error::ParseErrorKind;
use katex::parser::Mode;
use katex::settings::Settings;
use katex::source_location::SourceLocation;
use katex::token::Token;

fn gullet(input: &str) -> MacroExpander {
    MacroExpander::new(input, &Settings::default(), Mode::Math)
}

fn gullet_with(input: &str, macros: &[(&str, &str)], max_expand: usize) -> MacroExpander {
    let mut settings = Settings::default();
    for (name, body) in macros {
        settings.macros.push((name.to_string(), body.to_string()));
    }
    settings.max_expand = max_expand;
    MacroExpander::new(input, &settings, Mode::Math)
}

fn texts(tokens: &[Token]) -> Vec<String> {
    tokens.iter().map(|t| t.text.clone()).collect()
}

fn reading_order(tokens: &[Token]) -> Vec<String> {
    tokens.iter().rev().map(|t| t.text.clone()).collect()
}

fn rest(gullet: &mut MacroExpander) -> Vec<String> {
    let mut out = Vec::new();
    loop {
        let token = gullet.pop_token();
        if token.text == "EOF" {
            return out;
        }
        out.push(token.text);
    }
}

#[test]
fn future_looks_without_taking() {
    let mut g = gullet("ab");
    assert_eq!(g.stack_len(), 0);
    assert_eq!(g.future().text, "a");
    assert_eq!(g.stack_len(), 1);
    assert_eq!(g.future().text, "a");
    assert_eq!(g.pop_token().text, "a");
    assert_eq!(g.pop_token().text, "b");
    assert_eq!(g.pop_token().text, "EOF");
}

#[test]
fn pushed_tokens_come_back_last_first() {
    let mut g = gullet("z");
    g.push_token(Token::new("c".to_string(), None));
    g.push_tokens(vec![Token::new("b".to_string(), None), Token::new("a".to_string(), None)]);
    assert_eq!(rest(&mut g), vec!["a", "b", "c", "z"]);
}

#[test]
fn consume_spaces_takes_all_spaces() {
    let mut g = gullet("a");
    g.push_token(Token::new(" ".to_string(), None));
    g.push_token(Token::new(" ".to_string(), None));
    g.consume_spaces();
    assert_eq!(g.future().text, "a");
    g.consume_spaces();
    assert_eq!(rest(&mut g), vec!["a"]);
}

#[test]
fn argument_in_braces_is_stripped_once() {
    let mut g = gullet("{a{b}c}d");
    let (start, tokens, end) = g.consume_arg(None).unwrap();
    assert_eq!(start.text, "{");
    assert_eq!(end.text, "}");
    assert_eq!(end.loc, Some(SourceLocation::new(0, 6, 7)));
    assert_eq!(reading_order(&tokens), vec!["a", "{", "b", "}", "c"]);
    assert_eq!(rest(&mut g), vec!["d"]);
}

#[test]
fn argument_of_nested_groups_keeps_inner_braces() {
    let mut g = gullet("{{a}}b");
    let (_, tokens, _) = g.consume_arg(None).unwrap();
    assert_eq!(reading_order(&tokens), vec!["{", "a", "}"]);
    assert_eq!(rest(&mut g), vec!["b"]);
}

#[test]
fn argument_without_braces_is_one_token() {
    let mut g = gullet("ab");
    let (start, tokens, end) = g.consume_arg(None).unwrap();
    assert_eq!(start.text, "a");
    assert_eq!(end.text, "a");
    assert_eq!(texts(&tokens), vec!["a"]);
    assert_eq!(rest(&mut g), vec!["b"]);
}

#[test]
fn empty_group_is_an_empty_argument() {
    let mut g = gullet("{}x");
    let (_, tokens, _) = g.consume_arg(None).unwrap();
    assert!(tokens.is_empty());
    assert_eq!(rest(&mut g), vec!["x"]);
}

#[test]
fn delimited_argument_runs_up_to_the_delimiter() {
    let mut g = gullet("a{b]}c]d");
    let (_, tokens, end) = g.consume_arg(Some("]")).unwrap();
    assert_eq!(end.text, "]");
    assert_eq!(reading_order(&tokens), vec!["a", "{", "b", "]", "}", "c"]);
    assert_eq!(rest(&mut g), vec!["d"]);
}

#[test]
fn delimited_argument_of_one_group_is_stripped() {
    let mut g = gullet("{ab}.c");
    let (_, tokens, _) = g.consume_arg(Some(".")).unwrap();
    assert_eq!(reading_order(&tokens), vec!["a", "b"]);
    assert_eq!(rest(&mut g), vec!["c"]);
}

#[test]
fn delimited_argument_of_two_groups_keeps_its_braces() {
    let mut g = gullet("{a}{b}.c");
    let (_, tokens, _) = g.consume_arg(Some(".")).unwrap();
    assert_eq!(reading_order(&tokens), vec!["{", "a", "}", "{", "b", "}"]);
    assert_eq!(rest(&mut g), vec!["c"]);
}

#[test]
fn partial_match_of_a_delimiter_starts_over() {
    let mut g = gullet("a.b.;c");
    let (_, tokens, _) = g.consume_arg(Some(".;")).unwrap();
    assert_eq!(reading_order(&tokens), vec!["a", ".", "b"]);
    assert_eq!(rest(&mut g), vec!["c"]);
}

#[test]
fn empty_delimiter_is_no_delimiter() {
    let mut g = gullet("ab");
    let (_, tokens, _) = g.consume_arg(Some("")).unwrap();
    assert_eq!(texts(&tokens), vec!["a"]);
}

#[test]
fn extra_brace_is_an_error() {
    let mut g = gullet("}a");
    let err = g.consume_arg(None).unwrap_err();
    assert_eq!(err.kind, ParseErrorKind::UnbalancedBrace);
    assert_eq!(err.raw_message, "Extra }");
    assert_eq!(err.position, Some(0));
    assert_eq!(err.length, Some(1));
}

#[test]
fn end_of_input_inside_an_argument_is_an_error() {
    let mut g = gullet("{ab");
    let err = g.consume_arg(None).unwrap_err();
    assert_eq!(err.kind, ParseErrorKind::UnexpectedEof);
    assert_eq!(err.raw_message, "Unexpected end of input in a macro argument");
    assert_eq!(err.position, Some(3));
    assert_eq!(err.length, Some(0));
    assert_eq!(
        err.message,
        "KaTeX parse error: Unexpected end of input in a macro argument at end of input: {ab"
    );
}

#[test]
fn arguments_with_delimiters_are_checked() {
    let mut g = gullet("(a,b)c");
    let delimiters = vec!["(".to_string(), ",".to_string(), ")".to_string()];
    let args = g.consume_args(2, Some(&delimiters)).unwrap();
    assert_eq!(args.len(), 2);
    assert_eq!(texts(&args[0]), vec!["a"]);
    assert_eq!(texts(&args[1]), vec!["b"]);
    assert_eq!(rest(&mut g), vec!["c"]);
}

#[test]
fn use_that_does_not_match_the_definition_is_an_error() {
    let mut g = gullet("[a,b)c");
    let delimiters = vec!["(".to_string(), ",".to_string(), ")".to_string()];
    let err = g.consume_args(2, Some(&delimiters)).unwrap_err();
    assert_eq!(err.kind, ParseErrorKind::DelimiterMismatch);
    assert_eq!(err.raw_message, "Use of the macro doesn't match its definition");
    assert_eq!(err.position, Some(0));
}

#[test]
fn wrong_number_of_delimiters_is_an_error() {
    let mut g = gullet("ab");
    let delimiters = vec!["".to_string()];
    let err = g.consume_args(1, Some(&delimiters)).unwrap_err();
    assert_eq!(err.kind, ParseErrorKind::DelimiterMismatch);
    assert_eq!(err.position, None);
    assert_eq!(rest(&mut g), vec!["a", "b"]);
}

#[test]
fn arguments_without_delimiters() {
    let mut g = gullet("a{bc}d");
    let args = g.consume_args(2, None).unwrap();
    assert_eq!(texts(&args[0]), vec!["a"]);
    assert_eq!(reading_order(&args[1]), vec!["b", "c"]);
    assert_eq!(rest(&mut g), vec!["d"]);
}

#[test]
fn expanding_a_non_macro_changes_nothing() {
    let mut g = gullet("\\nothing b");
    assert_eq!(g.expand_once(false).unwrap(), None);
    assert_eq!(g.expansion_count(), 0);
    assert_eq!(rest(&mut g), vec!["\\nothing", "b"]);
}

#[test]
fn expanding_an_undefined_name_on_demand_is_an_error() {
    let mut g = gullet("\\nothing b");
    let err = g.expand_once(true).unwrap_err();
    assert_eq!(err.kind, ParseErrorKind::UndefinedControlSequence);
    assert_eq!(err.raw_message, "Undefined control sequence: \\nothing");
    assert_eq!(err.position, Some(0));
    assert_eq!(err.length, Some(8));
}

#[test]
fn expanding_a_symbol_on_demand_is_no_error() {
    let mut g = gullet("a\\frac^");
    assert_eq!(g.expand_once(true).unwrap(), None);
    assert_eq!(g.pop_token().text, "a");
    assert_eq!(g.expand_once(true).unwrap(), None);
    assert_eq!(g.pop_token().text, "\\frac");
    assert_eq!(g.expand_once(true).unwrap(), None);
}

#[test]
fn macro_body_takes_the_place_of_the_macro() {
    let mut g = gullet_with("\\foo x", &[("\\foo", "bar")], 1000);
    assert_eq!(g.expand_once(false).unwrap(), Some(3));
    assert_eq!(g.expansion_count(), 1);
    assert_eq!(rest(&mut g), vec!["b", "a", "r", "x"]);
}

#[test]
fn placeholders_are_replaced_by_arguments() {
    let mut g = gullet_with("\\sw{a b}c d", &[("\\sw", "#2-#1")], 1000);
    assert_eq!(g.expand_once(false).unwrap(), Some(5));
    assert_eq!(rest(&mut g), vec!["c", "-", "a", " ", "b", " ", "d"]);
}

#[test]
fn double_hash_is_one_hash() {
    let mut g = gullet("x");
    let body = vec!["#", "#"];
    let tokens = body.iter().rev().map(|t| Token::new(t.to_string(), None)).collect();
    g.define(
        "\\h".to_string(),
        MacroDefinition::Expansion(MacroExpansion { tokens, num_args: 1, delimiters: None }),
    );
    g.push_token(Token::new("\\h".to_string(), None));
    assert_eq!(g.expand_once(false).unwrap(), Some(1));
    assert_eq!(rest(&mut g), vec!["#"]);
}

#[test]
fn hash_before_something_else_is_an_error() {
    let mut g = gullet_with("\\bad a", &[("\\bad", "#x")], 1000);
    let err = g.expand_once(false).unwrap_err();
    assert_eq!(err.kind, ParseErrorKind::InvalidPlaceholder);
    assert_eq!(err.raw_message, "Not a valid argument number");
}

#[test]
fn argument_number_beyond_the_arguments_is_an_error() {
    let mut g = gullet_with("\\bad a", &[("\\bad", "#2")], 1000);
    let err = g.expand_once(false).unwrap_err();
    assert_eq!(err.kind, ParseErrorKind::InvalidPlaceholder);
}

#[test]
fn hash_at_the_end_is_an_error() {
    let mut g = gullet_with("\\bad a", &[("\\bad", "x#")], 1000);
    let err = g.expand_once(false).unwrap_err();
    assert_eq!(err.kind, ParseErrorKind::IncompletePlaceholder);
    assert_eq!(err.raw_message, "Incomplete placeholder at end of macro body");
}

#[test]
fn token_flagged_noexpand_is_not_expanded() {
    let mut g = gullet_with("", &[("\\foo", "bar")], 1000);
    let mut token = Token::new("\\foo".to_string(), None);
    token.noexpand = Some(true);
    g.push_token(token);
    assert_eq!(g.expand_once(false).unwrap(), None);
    assert_eq!(g.pop_token().text, "\\foo");
}

#[test]
fn next_token_is_fully_expanded() {
    let mut g = gullet_with("\\a z", &[("\\a", "\\b"), ("\\b", "xy")], 1000);
    assert_eq!(g.expand_next_token().unwrap().text, "x");
    assert_eq!(g.expansion_count(), 2);
    assert_eq!(g.expand_next_token().unwrap().text, "y");
    assert_eq!(g.expand_next_token().unwrap().text, "z");
    assert_eq!(g.expand_next_token().unwrap().text, "EOF");
}

#[test]
fn token_flagged_relax_comes_out_as_relax() {
    let mut g = gullet("");
    let mut token = Token::new("\\foo".to_string(), None);
    token.noexpand = Some(true);
    token.treat_as_relax = Some(true);
    g.push_token(token);
    let out = g.expand_next_token().unwrap();
    assert_eq!(out.text, "\\relax");
    assert_eq!(out.treat_as_relax, Some(true));
}

#[test]
fn self_reference_ends_with_too_many_expansions() {
    let mut g = gullet_with("\\a", &[("\\a", "\\a")], 20);
    let err = g.expand_next_token().unwrap_err();
    assert_eq!(err.kind, ParseErrorKind::TooManyExpansions);
    assert_eq!(
        err.raw_message,
        "Too many expansions: infinite loop or need to increase maxExpand setting"
    );
    assert_eq!(g.expansion_count(), 20);
}

#[test]
fn counting_stops_at_the_limit() {
    let mut g = gullet_with("", &[], 3);
    assert!(g.count_expansion(2).is_ok());
    assert_eq!(g.expansion_count(), 2);
    assert!(g.count_expansion(1).is_ok());
    let err = g.count_expansion(1).unwrap_err();
    assert_eq!(err.kind, ParseErrorKind::TooManyExpansions);
    assert_eq!(g.expansion_count(), 3);
}

#[test]
fn expand_after_future_expands_once_and_looks() {
    let mut g = gullet_with("\\a z", &[("\\a", "\\b"), ("\\b", "xy")], 1000);
    assert_eq!(g.expand_after_future().unwrap().text, "\\b");
    assert_eq!(g.expansion_count(), 1);
    assert_eq!(rest(&mut g), vec!["\\b", "z"]);
}

#[test]
fn expand_tokens_expands_fully_and_counts_the_output() {
    let mut g = gullet_with("rest", &[("\\a", "\\b\\ c"), ("\\b", "xy")], 1000);
    let tokens = vec![Token::new("d".to_string(), None), Token::new("\\a".to_string(), None)];
    let out = g.expand_tokens(tokens).unwrap();
    assert_eq!(texts(&out), vec!["x", "y", "\\ ", "c", "d"]);
    assert_eq!(g.expansion_count(), 2 + 5);
    assert_eq!(rest(&mut g), vec!["r", "e", "s", "t"]);
}

#[test]
fn expand_tokens_clears_flags() {
    let mut g = gullet("");
    let mut token = Token::new("a".to_string(), None);
    token.noexpand = Some(true);
    token.treat_as_relax = Some(true);
    let out = g.expand_tokens(vec![token]).unwrap();
    assert_eq!(out[0].text, "a");
    assert_eq!(out[0].noexpand, Some(false));
    assert_eq!(out[0].treat_as_relax, Some(false));
}

#[test]
fn expand_tokens_fails_on_an_undefined_name() {
    let mut g = gullet("");
    let err = g.expand_tokens(vec![Token::new("\\nothing".to_string(), None)]).unwrap_err();
    assert_eq!(err.kind, ParseErrorKind::UndefinedControlSequence);
    assert_eq!(err.position, None);
    assert_eq!(err.message, "KaTeX parse error: Undefined control sequence: \\nothing");
}

#[test]
fn expand_tokens_fails_on_a_brace() {
    let mut g = gullet("");
    let err = g.expand_tokens(vec![Token::new("{".to_string(), None)]).unwrap_err();
    assert_eq!(err.kind, ParseErrorKind::UndefinedControlSequence);
}

#[test]
fn expand_macro_gives_nothing_for_a_non_macro() {
    let mut g = gullet_with("", &[("\\a", "xy")], 1000);
    assert!(g.expand_macro("\\b").unwrap().is_none());
    assert_eq!(texts(&g.expand_macro("\\a").unwrap().unwrap()), vec!["x", "y"]);
}

#[test]
fn expand_macro_as_text_joins_the_texts() {
    let mut g = gullet_with("", &[("\\a", "x\\b z"), ("\\b", "y")], 1000);
    assert_eq!(g.expand_macro_as_text("\\a").unwrap(), Some("xyz".to_string()));
    assert_eq!(g.expand_macro_as_text("\\c").unwrap(), None);
}

#[test]
fn scan_argument_puts_the_argument_back_behind_an_end_marker() {
    let mut g = gullet("{ab}c");
    let spanned = g.scan_argument(false).unwrap().unwrap();
    assert_eq!(spanned.text, "");
    assert_eq!(spanned.loc, Some(SourceLocation::new(0, 0, 4)));
    assert_eq!(g.pop_token().text, "a");
    assert_eq!(g.pop_token().text, "b");
    let marker = g.pop_token();
    assert_eq!(marker.text, "EOF");
    assert_eq!(marker.loc, Some(SourceLocation::new(0, 3, 4)));
    assert_eq!(g.pop_token().text, "c");
}

#[test]
fn optional_argument_stands_in_brackets() {
    let mut g = gullet("  [a{]}]b");
    let spanned = g.scan_argument(true).unwrap().unwrap();
    assert_eq!(spanned.loc, Some(SourceLocation::new(0, 2, 8)));
    assert_eq!(g.pop_token().text, "a");
    assert_eq!(g.pop_token().text, "{");
}

#[test]
fn optional_argument_may_be_missing() {
    let mut g = gullet(" ab");
    assert!(g.scan_argument(true).unwrap().is_none());
    assert_eq!(rest(&mut g), vec!["a", "b"]);
}

#[test]
fn defined_names_are_macros_functions_symbols_and_implicit_commands() {
    let g = gullet_with("", &[("\\foo", "bar")], 1000);
    assert!(g.is_defined("\\foo"));
    assert!(g.is_defined("\\bgroup"));
    assert!(g.is_defined("\\frac"));
    assert!(g.is_defined("\\alpha"));
    assert!(g.is_defined("a"));
    assert!(g.is_defined("^"));
    assert!(g.is_defined("_"));
    assert!(g.is_defined("\\limits"));
    assert!(g.is_defined("\\nolimits"));
    assert!(!g.is_defined("\\nothing"));
    assert!(!g.is_defined("EOF"));
}

#[test]
fn expandable_names_are_macros_and_functions_that_are_no_primitives() {
    let g = gullet_with("", &[("\\foo", "bar")], 1000);
    assert!(g.is_expandable("\\foo"));
    assert!(g.is_expandable("\\frac"));
    assert!(!g.is_expandable("\\def"));
    assert!(!g.is_expandable("a"));
    assert!(!g.is_expandable("\\nothing"));
}

#[test]
fn groups_scope_macros_of_the_expander() {
    let mut g = gullet("");
    g.begin_group();
    g.define("\\x".to_string(), MacroDefinition::Text("1".to_string()));
    assert!(g.is_defined("\\x"));
    assert!(g.end_group().is_ok());
    assert!(!g.is_defined("\\x"));
    let err = g.end_group().unwrap_err();
    assert_eq!(err.kind, ParseErrorKind::Scope);
    g.begin_group();
    g.begin_group();
    g.end_groups();
    assert_eq!(g.macros().depth(), 0);
}

#[test]
fn comment_character_is_never_expanded() {
    let mut g = gullet_with("", &[("%", "x"), ("~", "y")], 1000);
    assert!(g.get_expansion("%").is_none());
    assert_eq!(g.get_expansion("~").unwrap().tokens.len(), 1);
    g.push_token(Token::new("~".to_string(), None));
    assert_eq!(g.expand_next_token().unwrap().text, "y");
}

#[test]
fn feed_starts_a_new_input_with_a_new_lexer() {
    let mut g = gullet("a");
    assert_eq!(g.pop_token().loc, Some(SourceLocation::new(0, 0, 1)));
    g.feed("b");
    assert_eq!(g.pop_token().loc, Some(SourceLocation::new(1, 0, 1)));
}

#[test]
fn switch_mode_sets_the_mode() {
    let mut g = gullet("");
    assert_eq!(g.mode(), Mode::Math);
    g.switch_mode(Mode::Text);
    assert_eq!(g.mode(), Mode::Text);
}
