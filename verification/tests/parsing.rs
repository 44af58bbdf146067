use katex::parse_error::ParseErrorKind;
use katex::parse_node::AnyParseNode;
use katex::parse_tree::parse_tree;
use katex::parser::{Mode, Parser};
use katex::settings::Settings;
use katex::symbols::SymbolGroup;

fn symbol_text(node: &AnyParseNode) -> String {
    match node {
        AnyParseNode::Atom(n) => n.text.clone(),
        AnyParseNode::MathOrd(n) => n.text.clone(),
        AnyParseNode::TextOrd(n) => n.text.clone(),
        AnyParseNode::Spacing(n) => n.text.clone(),
        other => panic!("no symbol: {:?}", other),
    }
}

fn texts(nodes: &[AnyParseNode]) -> Vec<String> {
    nodes.iter().map(symbol_text).collect()
}

#[test]
fn sum_is_three_atoms_in_math_mode() {
    let settings = Settings::default();
    let tree = parse_tree("a+b", &settings).unwrap();
    assert_eq!(texts(&tree), vec!["a", "+", "b"]);
    match &tree[0] {
        AnyParseNode::MathOrd(n) => assert_eq!(n.mode, Mode::Math),
        other => panic!("unexpected {:?}", other),
    }
    match &tree[1] {
        AnyParseNode::Atom(n) => {
            assert_eq!(n.family, SymbolGroup::Bin);
            assert_eq!(n.mode, Mode::Math);
        }
        other => panic!("unexpected {:?}", other),
    }
}

#[test]
fn over_is_rewritten_to_a_fraction() {
    let settings = Settings::default();
    let tree = parse_tree("a \\over b", &settings).unwrap();
    assert_eq!(tree.len(), 1);
    match &tree[0] {
        AnyParseNode::Genfrac(f) => {
            assert!(f.has_bar_line);
            assert_eq!(f.size, "auto");
            assert_eq!(f.left_delim, None);
            match (&*f.numer, &*f.denom) {
                (AnyParseNode::OrdGroup(n), AnyParseNode::OrdGroup(d)) => {
                    assert_eq!(texts(&n.body), vec!["a"]);
                    assert_eq!(texts(&d.body), vec!["b"]);
                }
                other => panic!("unexpected {:?}", other),
            }
        }
        other => panic!("unexpected {:?}", other),
    }
}

#[test]
fn over_and_frac_give_the_same_parts() {
    let settings = Settings::default();
    let infix = parse_tree("a \\over b", &settings).unwrap();
    let explicit = parse_tree("\\frac{a}{b}", &settings).unwrap();
    match (&infix[0], &explicit[0]) {
        (AnyParseNode::Genfrac(x), AnyParseNode::Genfrac(y)) => {
            assert_eq!(x.has_bar_line, y.has_bar_line);
            assert_eq!(x.size, y.size);
            match (&*x.numer, &*y.numer, &*x.denom, &*y.denom) {
                (
                    AnyParseNode::OrdGroup(a),
                    AnyParseNode::OrdGroup(b),
                    AnyParseNode::OrdGroup(c),
                    AnyParseNode::OrdGroup(d),
                ) => {
                    assert_eq!(texts(&a.body), texts(&b.body));
                    assert_eq!(texts(&c.body), texts(&d.body));
                }
                other => panic!("unexpected {:?}", other),
            }
        }
        other => panic!("unexpected {:?}", other),
    }
}

#[test]
fn user_macro_expands_before_parsing() {
    let mut settings = Settings::default();
    settings.macros.push(("\\foo".to_string(), "bar".to_string()));
    let tree = parse_tree("\\foo", &settings).unwrap();
    assert_eq!(texts(&tree), vec!["b", "a", "r"]);
}

#[test]
fn definition_ends_with_its_group() {
    let settings = Settings::default();
    let err = parse_tree("{\\def\\x{1}\\x}\\x", &settings).unwrap_err();
    assert_eq!(err.kind, ParseErrorKind::UndefinedControlSequence);
    assert_eq!(err.raw_message, "Undefined control sequence: \\x");
    assert_eq!(err.position, Some(13));
    assert_eq!(err.length, Some(2));
}

#[test]
fn definition_is_used_inside_its_group() {
    let settings = Settings::default();
    let tree = parse_tree("{\\def\\x{1}\\x}", &settings).unwrap();
    assert_eq!(tree.len(), 1);
    match &tree[0] {
        AnyParseNode::OrdGroup(g) => assert_eq!(texts(&g.body), vec!["1"]),
        other => panic!("unexpected {:?}", other),
    }
}

#[test]
fn two_infix_operators_are_refused() {
    let settings = Settings::default();
    let err = parse_tree("a \\over b \\over c", &settings).unwrap_err();
    assert_eq!(err.kind, ParseErrorKind::MultipleInfixOperators);
    assert_eq!(err.raw_message, "only one infix operator per group");
    assert_eq!(err.position, Some(10));
}

#[test]
fn self_referential_macro_hits_the_limit() {
    let mut settings = Settings::default();
    settings.macros.push(("\\a".to_string(), "\\a".to_string()));
    settings.max_expand = 50;
    let err = parse_tree("\\a", &settings).unwrap_err();
    assert_eq!(err.kind, ParseErrorKind::TooManyExpansions);
}

#[test]
fn failed_parse_leaves_no_group_open() {
    let settings = Settings::default();
    let mut parser = Parser::new("{a \\right)", &settings);
    let err = parser.parse().unwrap_err();
    assert_eq!(err.kind, ParseErrorKind::UnexpectedToken);
    assert_eq!(parser.gullet().macros().depth(), 0);
}

use katex::parse_node::{InfixParseNode, Measurement, MathOrdParseNode, OrdGroupParseNode};
use katex::token::Token;

fn letter(text: &str) -> AnyParseNode {
    AnyParseNode::MathOrd(MathOrdParseNode { mode: Mode::Math, loc: None, text: text.to_string() })
}

fn infix(replace_with: &str, size: Option<Measurement>) -> AnyParseNode {
    AnyParseNode::Infix(InfixParseNode {
        mode: Mode::Math,
        loc: None,
        replace_with: replace_with.to_string(),
        size,
        token: Some(Token::new("\\over".to_string(), None)),
    })
}

#[test]
fn body_without_infix_is_unchanged() {
    let settings = Settings::default();
    let parser = Parser::new("", &settings);
    let out = parser.handle_infix_nodes(vec![letter("a"), letter("b")]).unwrap();
    assert_eq!(out, vec![letter("a"), letter("b")]);
    assert!(parser.handle_infix_nodes(Vec::new()).unwrap().is_empty());
}

#[test]
fn infix_splits_the_body_at_its_position() {
    let settings = Settings::default();
    let parser = Parser::new("", &settings);
    let body = vec![letter("a"), letter("b"), infix("\\binom", None), letter("c")];
    let out = parser.handle_infix_nodes(body).unwrap();
    assert_eq!(out.len(), 1);
    match &out[0] {
        AnyParseNode::Genfrac(f) => {
            assert!(!f.has_bar_line);
            assert_eq!(f.left_delim, Some("(".to_string()));
            assert_eq!(f.right_delim, Some(")".to_string()));
            assert!(!f.continued);
            assert_eq!(f.bar_size, None);
            assert_eq!(
                *f.numer,
                AnyParseNode::OrdGroup(OrdGroupParseNode {
                    mode: Mode::Math,
                    loc: None,
                    body: vec![letter("a"), letter("b")],
                    semisimple: None,
                })
            );
            assert_eq!(
                *f.denom,
                AnyParseNode::OrdGroup(OrdGroupParseNode {
                    mode: Mode::Math,
                    loc: None,
                    body: vec![letter("c")],
                    semisimple: None,
                })
            );
        }
        other => panic!("unexpected {:?}", other),
    }
}

#[test]
fn operand_that_is_one_group_is_taken_as_it_is() {
    let settings = Settings::default();
    let tree = parse_tree("{a b} \\over {c}", &settings).unwrap();
    match &tree[0] {
        AnyParseNode::Genfrac(f) => match (&*f.numer, &*f.denom) {
            (AnyParseNode::OrdGroup(n), AnyParseNode::OrdGroup(d)) => {
                assert_eq!(texts(&n.body), vec!["a", "b"]);
                assert!(n.loc.is_some());
                assert_eq!(texts(&d.body), vec!["c"]);
            }
            other => panic!("unexpected {:?}", other),
        },
        other => panic!("unexpected {:?}", other),
    }
}

#[test]
fn infix_with_empty_sides_gives_empty_groups() {
    let settings = Settings::default();
    let tree = parse_tree("\\over", &settings).unwrap();
    match &tree[0] {
        AnyParseNode::Genfrac(f) => match (&*f.numer, &*f.denom) {
            (AnyParseNode::OrdGroup(n), AnyParseNode::OrdGroup(d)) => {
                assert!(n.body.is_empty());
                assert!(d.body.is_empty());
            }
            other => panic!("unexpected {:?}", other),
        },
        other => panic!("unexpected {:?}", other),
    }
}

#[test]
fn rule_thickness_comes_from_the_infix_node() {
    let settings = Settings::default();
    let parser = Parser::new("", &settings);
    let thickness = Measurement { number: 1500, unit: "pt".to_string() };
    let body = vec![letter("a"), infix("\\\\abovefrac", Some(thickness.clone())), letter("b")];
    let out = parser.handle_infix_nodes(body).unwrap();
    match &out[0] {
        AnyParseNode::Genfrac(f) => {
            assert!(f.has_bar_line);
            assert_eq!(f.bar_size, Some(thickness));
        }
        other => panic!("unexpected {:?}", other),
    }
    let body = vec![letter("a"), infix("\\\\abovefrac", None), letter("b")];
    let err = parser.handle_infix_nodes(body).unwrap_err();
    assert_eq!(err.kind, ParseErrorKind::MissingArgument);
}

#[test]
fn infix_that_names_no_fraction_cannot_be_called() {
    let settings = Settings::default();
    let parser = Parser::new("", &settings);
    let err = parser.handle_infix_nodes(vec![infix("\\nothing", None)]).unwrap_err();
    assert_eq!(err.kind, ParseErrorKind::NoFunctionHandler);
    assert_eq!(err.raw_message, "No function handler for \\nothing");
}

#[test]
fn infix_without_replacement_is_left_alone() {
    let settings = Settings::default();
    let parser = Parser::new("", &settings);
    let out = parser.handle_infix_nodes(vec![letter("a"), infix("", None)]).unwrap();
    assert_eq!(out.len(), 2);
}

#[test]
fn infix_in_an_inner_group_does_not_count_outside() {
    let settings = Settings::default();
    let tree = parse_tree("{a \\over b} \\over c", &settings).unwrap();
    assert_eq!(tree.len(), 1);
    match &tree[0] {
        AnyParseNode::Genfrac(f) => match &*f.numer {
            AnyParseNode::OrdGroup(g) => assert!(matches!(g.body[0], AnyParseNode::Genfrac(_))),
            other => panic!("unexpected {:?}", other),
        },
        other => panic!("unexpected {:?}", other),
    }
}

#[test]
fn fractions_and_binomials_by_name() {
    let settings = Settings::default();
    let cases = [
        ("\\frac ab", true, None, "auto"),
        ("\\dfrac ab", true, None, "display"),
        ("\\tfrac ab", true, None, "text"),
        ("\\binom ab", false, Some("("), "auto"),
        ("\\dbinom ab", false, Some("("), "display"),
        ("\\tbinom ab", false, Some("("), "text"),
        ("a \\atop b", false, None, "auto"),
        ("a \\brace b", false, Some("\\{"), "auto"),
        ("a \\brack b", false, Some("["), "auto"),
        ("a \\choose b", false, Some("("), "auto"),
    ];
    for (input, bar, left, size) in cases {
        let tree = parse_tree(input, &settings).unwrap();
        match &tree[0] {
            AnyParseNode::Genfrac(f) => {
                assert_eq!(f.has_bar_line, bar, "{}", input);
                assert_eq!(f.left_delim.as_deref(), left, "{}", input);
                assert_eq!(f.size, size, "{}", input);
            }
            other => panic!("unexpected {:?}", other),
        }
    }
}

#[test]
fn spaces_are_passed_over_in_math_mode() {
    let settings = Settings::default();
    let tree = parse_tree("  a   b ", &settings).unwrap();
    assert_eq!(texts(&tree), vec!["a", "b"]);
}

#[test]
fn empty_input_is_an_empty_tree() {
    let settings = Settings::default();
    assert!(parse_tree("", &settings).unwrap().is_empty());
}

#[test]
fn groups_nest() {
    let settings = Settings::default();
    let tree = parse_tree("{a{b}}\\begingroup c\\endgroup", &settings).unwrap();
    assert_eq!(tree.len(), 2);
    match (&tree[0], &tree[1]) {
        (AnyParseNode::OrdGroup(g), AnyParseNode::OrdGroup(h)) => {
            assert_eq!(g.body.len(), 2);
            assert_eq!(g.semisimple, None);
            assert_eq!(g.loc.map(|l| (l.start, l.end)), Some((0, 6)));
            assert_eq!(h.semisimple, Some(true));
            assert_eq!(texts(&h.body), vec!["c"]);
        }
        other => panic!("unexpected {:?}", other),
    }
}

#[test]
fn unclosed_group_is_an_error() {
    let settings = Settings::default();
    let err = parse_tree("{a", &settings).unwrap_err();
    assert_eq!(err.kind, ParseErrorKind::UnexpectedToken);
    assert_eq!(err.raw_message, "Expected '}', got 'EOF'");
    assert_eq!(err.message, "KaTeX parse error: Expected '}', got 'EOF' at end of input: {a");
}

#[test]
fn stray_closing_brace_is_an_error() {
    let settings = Settings::default();
    let err = parse_tree("a}", &settings).unwrap_err();
    assert_eq!(err.kind, ParseErrorKind::UnexpectedToken);
    assert_eq!(err.raw_message, "Expected 'EOF', got '}'");
    assert_eq!(err.position, Some(1));
}

#[test]
fn undefined_control_sequence_is_an_error() {
    let settings = Settings::default();
    let err = parse_tree("a\\nothing", &settings).unwrap_err();
    assert_eq!(err.kind, ParseErrorKind::UndefinedControlSequence);
    assert_eq!(err.position, Some(1));
    assert_eq!(err.length, Some(8));
}

#[test]
fn missing_argument_is_an_error() {
    let settings = Settings::default();
    let err = parse_tree("\\frac a", &settings).unwrap_err();
    assert_eq!(err.kind, ParseErrorKind::UnexpectedEof);
}

#[test]
fn definition_with_parameters() {
    let settings = Settings::default();
    let tree = parse_tree("\\def\\sw#1#2{#2#1}\\sw ab", &settings).unwrap();
    assert_eq!(texts(&tree), vec!["b", "a"]);
}

#[test]
fn definition_of_a_reserved_name_is_an_error() {
    let settings = Settings::default();
    let err = parse_tree("\\def{a}", &settings).unwrap_err();
    assert_eq!(err.kind, ParseErrorKind::InvalidDefinition);
    assert_eq!(err.raw_message, "Expected a control sequence");
}

#[test]
fn parameters_out_of_order_are_an_error() {
    let settings = Settings::default();
    let err = parse_tree("\\def\\x#2{a}", &settings).unwrap_err();
    assert_eq!(err.kind, ParseErrorKind::InvalidDefinition);
    assert_eq!(err.raw_message, "Invalid argument number");
    let err = parse_tree("\\def\\x a{a}", &settings).unwrap_err();
    assert_eq!(err.kind, ParseErrorKind::InvalidDefinition);
    let err = parse_tree("\\def\\x", &settings).unwrap_err();
    assert_eq!(err.kind, ParseErrorKind::UnexpectedEof);
    assert_eq!(err.raw_message, "Expected a macro definition");
}

#[test]
fn global_definition_outlives_its_group() {
    let settings = Settings::default();
    let tree = parse_tree("{\\gdef\\x{1}}\\x", &settings).unwrap();
    assert_eq!(tree.len(), 2);
    assert_eq!(texts(&tree[1..]), vec!["1"]);
}

#[test]
fn definition_shadows_and_reverts() {
    let mut settings = Settings::default();
    settings.macros.push(("\\x".to_string(), "0".to_string()));
    let tree = parse_tree("\\x{\\def\\x{1}\\x}\\x", &settings).unwrap();
    assert_eq!(tree.len(), 3);
    assert_eq!(texts(&tree[0..1]), vec!["0"]);
    assert_eq!(texts(&tree[2..3]), vec!["0"]);
    match &tree[1] {
        AnyParseNode::OrdGroup(g) => assert_eq!(texts(&g.body), vec!["1"]),
        other => panic!("unexpected {:?}", other),
    }
}

#[test]
fn relax_leaves_nothing_in_the_tree() {
    let settings = Settings::default();
    let tree = parse_tree("a\\relax b", &settings).unwrap();
    assert_eq!(texts(&tree), vec!["a", "b"]);
}

#[test]
fn builtin_macros_are_expanded() {
    let settings = Settings::default();
    let tree = parse_tree("\\bgroup a\\egroup\\lbrack", &settings).unwrap();
    assert_eq!(tree.len(), 2);
    assert!(matches!(tree[0], AnyParseNode::OrdGroup(_)));
    assert_eq!(texts(&tree[1..]), vec!["["]);
}

#[test]
fn tag_needs_display_mode() {
    let mut settings = Settings::default();
    let err = parse_tree("a\\tag{1}", &settings).unwrap_err();
    assert_eq!(err.kind, ParseErrorKind::DisplayModeRequired);
    assert_eq!(err.raw_message, "\\tag works only in display equations");
    settings.display_mode = true;
    let tree = parse_tree("a\\tag{1}", &settings).unwrap();
    assert_eq!(tree.len(), 1);
    match &tree[0] {
        AnyParseNode::Tag(t) => {
            assert_eq!(t.mode, Mode::Text);
            assert_eq!(texts(&t.body), vec!["a"]);
            assert_eq!(texts(&t.tag), vec!["1"]);
        }
        other => panic!("unexpected {:?}", other),
    }
}

#[test]
fn second_tag_is_an_error() {
    let mut settings = Settings::default();
    settings.display_mode = true;
    let err = parse_tree("a\\tag{1}\\tag{2}", &settings).unwrap_err();
    assert_eq!(err.kind, ParseErrorKind::DuplicateTag);
}

#[test]
fn tag_does_not_leak_from_the_settings() {
    let mut settings = Settings::default();
    settings.macros.push(("\\df@tag".to_string(), "9".to_string()));
    let tree = parse_tree("a", &settings).unwrap();
    assert_eq!(texts(&tree), vec!["a"]);
}

#[test]
fn function_of_math_mode_is_refused_in_text_mode() {
    let settings = Settings::default();
    let mut parser = Parser::new("\\frac ab", &settings);
    parser.switch_mode(Mode::Text);
    let err = parser.parse().unwrap_err();
    assert_eq!(err.kind, ParseErrorKind::WrongMode);
    assert_eq!(err.raw_message, "Can't use function '\\frac' in text mode");
}

#[test]
fn ligatures_are_formed_in_text_mode() {
    let settings = Settings::default();
    let mut parser = Parser::new("a--b---c``d''-", &settings);
    parser.switch_mode(Mode::Text);
    let tree = parser.parse().unwrap();
    assert_eq!(texts(&tree), vec!["a", "--", "b", "---", "c", "``", "d", "''", "-"]);
    match &tree[1] {
        AnyParseNode::TextOrd(n) => {
            assert_eq!(n.mode, Mode::Text);
            assert_eq!(n.loc.map(|l| (l.start, l.end)), Some((1, 3)));
        }
        other => panic!("unexpected {:?}", other),
    }
}

#[test]
fn spaces_count_in_text_mode() {
    let settings = Settings::default();
    let mut parser = Parser::new("a b", &settings);
    parser.switch_mode(Mode::Text);
    let tree = parser.parse().unwrap();
    assert_eq!(texts(&tree), vec!["a", " ", "b"]);
}

#[test]
fn lookahead_is_fetched_once_and_consumed() {
    let settings = Settings::default();
    let mut parser = Parser::new("ab", &settings);
    assert_eq!(parser.fetch().unwrap().text, "a");
    assert_eq!(parser.fetch().unwrap().text, "a");
    parser.consume();
    assert_eq!(parser.fetch().unwrap().text, "b");
    assert!(parser.expect("b", false).is_ok());
    assert!(parser.expect("b", true).is_ok());
    let err = parser.expect("c", true).unwrap_err();
    assert_eq!(err.kind, ParseErrorKind::UnexpectedToken);
    assert_eq!(err.raw_message, "Expected 'c', got 'EOF'");
}

#[test]
fn subparse_is_a_job_of_its_own() {
    let settings = Settings::default();
    let mut parser = Parser::new("z", &settings);
    assert_eq!(parser.fetch().unwrap().text, "z");
    let tokens = vec![Token::new("b".to_string(), None), Token::new("a".to_string(), None)];
    let tree = parser.subparse(tokens).unwrap();
    assert_eq!(texts(&tree), vec!["a", "b"]);
    assert_eq!(parser.fetch().unwrap().text, "z");
}

#[test]
fn global_group_keeps_definitions_in_the_base_layer() {
    let mut settings = Settings::default();
    settings.global_group = true;
    let mut parser = Parser::new("\\def\\x{1}", &settings);
    assert!(parser.parse().unwrap().is_empty());
    assert!(parser.gullet().is_defined("\\x"));
    settings.global_group = false;
    let mut parser = Parser::new("\\def\\x{1}", &settings);
    assert!(parser.parse().unwrap().is_empty());
    assert!(!parser.gullet().is_defined("\\x"));
}

#[test]
fn color_is_text_color_on_request() {
    let mut settings = Settings::default();
    settings.color_is_text_color = true;
    settings.macros.push(("\\textcolor".to_string(), "c".to_string()));
    let tree = parse_tree("\\color", &settings).unwrap();
    assert_eq!(texts(&tree), vec!["c"]);
}

#[test]
fn nesting_up_to_the_limit_parses() {
    let settings = Settings::default();
    let input = format!("{}a{}", "{".repeat(255), "}".repeat(255));
    let tree = parse_tree(&input, &settings).unwrap();
    assert_eq!(tree.len(), 1);
}

#[test]
fn nesting_beyond_the_limit_is_an_error() {
    let settings = Settings::default();
    let input = format!("{}a{}", "{".repeat(256), "}".repeat(256));
    let err = parse_tree(&input, &settings).unwrap_err();
    assert_eq!(err.kind, ParseErrorKind::NestingTooDeep);
    assert_eq!(err.position, Some(255));
    let input = format!("{}a{}", "\\frac{".repeat(300), "}{b}".repeat(300));
    let err = parse_tree(&input, &settings).unwrap_err();
    assert_eq!(err.kind, ParseErrorKind::NestingTooDeep);
    let mut parser = Parser::new(&input, &settings);
    assert!(parser.parse().is_err());
    assert_eq!(parser.gullet().macros().depth(), 0);
}

#[test]
fn delimiters_enclose_an_expression() {
    let settings = Settings::default();
    let tree = parse_tree("\\left( a \\over b \\right]", &settings).unwrap();
    assert_eq!(tree.len(), 1);
    match &tree[0] {
        AnyParseNode::LeftRight(n) => {
            assert_eq!(n.left, "(");
            assert_eq!(n.right, "]");
            assert_eq!(n.right_color, None);
            assert_eq!(n.body.len(), 1);
            assert!(matches!(n.body[0], AnyParseNode::Genfrac(_)));
        }
        other => panic!("unexpected {:?}", other),
    }
}

#[test]
fn middle_stands_between_left_and_right() {
    let settings = Settings::default();
    let tree = parse_tree("\\left\\{ a \\middle| b \\right.", &settings).unwrap();
    match &tree[0] {
        AnyParseNode::LeftRight(n) => {
            assert_eq!(n.left, "\\{");
            assert_eq!(n.right, ".");
            assert_eq!(n.body.len(), 3);
            match &n.body[1] {
                AnyParseNode::Middle(m) => assert_eq!(m.delim, "|"),
                other => panic!("unexpected {:?}", other),
            }
        }
        other => panic!("unexpected {:?}", other),
    }
    let err = parse_tree("a \\middle| b", &settings).unwrap_err();
    assert_eq!(err.kind, ParseErrorKind::MiddleWithoutLeft);
    assert_eq!(err.raw_message, "\\middle without preceding \\left");
    let err = parse_tree("\\left( {a \\middle| b} \\right) \\middle|", &settings).unwrap_err();
    assert_eq!(err.kind, ParseErrorKind::MiddleWithoutLeft);
    assert_eq!(err.position, Some(30));
}

#[test]
fn left_needs_a_delimiter_and_its_right() {
    let settings = Settings::default();
    let err = parse_tree("\\left a \\right)", &settings).unwrap_err();
    assert_eq!(err.kind, ParseErrorKind::InvalidDelimiter);
    assert_eq!(err.raw_message, "Invalid delimiter 'a' after '\\left'");
    let err = parse_tree("\\left( a", &settings).unwrap_err();
    assert_eq!(err.kind, ParseErrorKind::UnexpectedToken);
    assert_eq!(err.raw_message, "Expected '\\right', got 'EOF'");
    let err = parse_tree("\\left( a \\right", &settings).unwrap_err();
    assert_eq!(err.kind, ParseErrorKind::InvalidDelimiter);
}

#[test]
fn unmatched_right_fails_and_leaves_no_group_open() {
    let settings = Settings::default();
    let mut parser = Parser::new("{\\def\\x{1} a \\right) b}", &settings);
    let err = parser.parse().unwrap_err();
    assert_eq!(err.kind, ParseErrorKind::UnexpectedToken);
    assert_eq!(err.raw_message, "Expected '}', got '\\right'");
    assert_eq!(parser.gullet().macros().depth(), 0);
    assert!(!parser.gullet().is_defined("\\x"));
}

#[test]
fn delimited_content_nests_to_the_limit() {
    let settings = Settings::default();
    let input = format!("{}a{}", "\\left(".repeat(255), "\\right)".repeat(255));
    assert_eq!(parse_tree(&input, &settings).unwrap().len(), 1);
    let input = format!("{}a{}", "\\left(".repeat(256), "\\right)".repeat(256));
    let err = parse_tree(&input, &settings).unwrap_err();
    assert_eq!(err.kind, ParseErrorKind::NestingTooDeep);
}

use katex::parse_node::SupSubParseNode;

fn scripts(node: &AnyParseNode) -> &SupSubParseNode {
    match node {
        AnyParseNode::SupSub(n) => n,
        other => panic!("unexpected {:?}", other),
    }
}

#[test]
fn base_takes_superscript_and_subscript() {
    let settings = Settings::default();
    let tree = parse_tree("x^2_i y_{jk}", &settings).unwrap();
    assert_eq!(tree.len(), 2);
    let first = scripts(&tree[0]);
    assert_eq!(symbol_text(first.base.as_deref().unwrap()), "x");
    assert_eq!(symbol_text(first.sup.as_deref().unwrap()), "2");
    assert_eq!(symbol_text(first.sub.as_deref().unwrap()), "i");
    let second = scripts(&tree[1]);
    assert!(second.sup.is_none());
    match second.sub.as_deref() {
        Some(AnyParseNode::OrdGroup(g)) => assert_eq!(texts(&g.body), vec!["j", "k"]),
        other => panic!("unexpected {:?}", other),
    }
    let tree = parse_tree("^a", &settings).unwrap();
    let alone = scripts(&tree[0]);
    assert!(alone.base.is_none());
    assert_eq!(alone.mode, Mode::Math);
    let tree = parse_tree("y_j ^a", &settings).unwrap();
    assert_eq!(tree.len(), 1);
    assert!(scripts(&tree[0]).sup.is_some());
}

#[test]
fn second_script_of_a_kind_is_an_error() {
    let settings = Settings::default();
    let err = parse_tree("x^2^3", &settings).unwrap_err();
    assert_eq!(err.kind, ParseErrorKind::DoubleScript);
    assert_eq!(err.raw_message, "Double superscript");
    assert_eq!(err.position, Some(3));
    let err = parse_tree("x_2 _3", &settings).unwrap_err();
    assert_eq!(err.raw_message, "Double subscript");
}

#[test]
fn script_needs_a_group() {
    let settings = Settings::default();
    let err = parse_tree("x^", &settings).unwrap_err();
    assert_eq!(err.kind, ParseErrorKind::MissingArgument);
    assert_eq!(err.raw_message, "Expected group after '^'");
    assert_eq!(err.position, Some(1));
    let err = parse_tree("{x_}", &settings).unwrap_err();
    assert_eq!(err.raw_message, "Expected group after '_'");
}

#[test]
fn scripts_go_with_fractions_and_delimiters() {
    let settings = Settings::default();
    let tree = parse_tree("\\frac{a^2}{b}_n \\left( c \\right)^2", &settings).unwrap();
    assert_eq!(tree.len(), 2);
    assert!(matches!(scripts(&tree[0]).base.as_deref(), Some(AnyParseNode::Genfrac(_))));
    assert!(matches!(scripts(&tree[1]).base.as_deref(), Some(AnyParseNode::LeftRight(_))));
}

#[test]
fn scripts_are_not_read_in_text_mode() {
    let settings = Settings::default();
    let mut parser = Parser::new("a^b", &settings);
    parser.switch_mode(Mode::Text);
    let err = parser.parse().unwrap_err();
    assert_eq!(err.kind, ParseErrorKind::UnexpectedToken);
    assert_eq!(err.raw_message, "Expected 'EOF', got '^'");
}

#[test]
fn expression_stops_before_an_infix_operator_on_request() {
    let settings = Settings::default();
    let mut parser = Parser::new("a b \\over c", &settings);
    let body = parser.parse_expression(true, None).unwrap();
    assert_eq!(texts(&body), vec!["a", "b"]);
    assert_eq!(parser.fetch().unwrap().text, "\\over");
}

#[test]
fn expression_stops_before_the_given_token() {
    let settings = Settings::default();
    let mut parser = Parser::new("a ] b", &settings);
    let body = parser.parse_expression(false, Some("]")).unwrap();
    assert_eq!(texts(&body), vec!["a"]);
    assert_eq!(parser.fetch().unwrap().text, "]");
    let mut parser = Parser::new("a ] b", &settings);
    let body = parser.parse_expression(false, None).unwrap();
    assert_eq!(texts(&body), vec!["a", "]", "b"]);
}

#[test]
fn expression_stops_before_the_fixed_set_and_what_is_no_atom() {
    let settings = Settings::default();
    for (input, stop) in [
        ("a } b", "}"),
        ("a \\endgroup b", "\\endgroup"),
        ("a \\end b", "\\end"),
        ("a \\right b", "\\right"),
        ("a & b", "&"),
        ("a # b", "#"),
        ("a", "EOF"),
    ] {
        let mut parser = Parser::new(input, &settings);
        let body = parser.parse_expression(false, None).unwrap();
        assert_eq!(texts(&body), vec!["a"], "{}", input);
        assert_eq!(parser.fetch().unwrap().text, stop, "{}", input);
    }
}

#[test]
fn text_is_read_in_text_mode() {
    let settings = Settings::default();
    let tree = parse_tree("a \\text{b c--d} e", &settings).unwrap();
    assert_eq!(tree.len(), 3);
    match &tree[1] {
        AnyParseNode::Text(t) => {
            assert_eq!(t.mode, Mode::Math);
            assert_eq!(t.font, None);
            assert_eq!(texts(&t.body), vec!["b", " ", "c", "--", "d"]);
            match &t.body[0] {
                AnyParseNode::TextOrd(n) => assert_eq!(n.mode, Mode::Text),
                other => panic!("unexpected {:?}", other),
            }
        }
        other => panic!("unexpected {:?}", other),
    }
    match &tree[2] {
        AnyParseNode::MathOrd(n) => assert_eq!(n.mode, Mode::Math),
        other => panic!("unexpected {:?}", other),
    }
}

#[test]
fn text_keeps_its_mode_for_what_it_holds() {
    let settings = Settings::default();
    let err = parse_tree("\\text{a \\frac bc}", &settings).unwrap_err();
    assert_eq!(err.kind, ParseErrorKind::WrongMode);
    let tree = parse_tree("\\text{\\text{a}}^2", &settings).unwrap();
    assert_eq!(tree.len(), 1);
    assert!(matches!(scripts(&tree[0]).base.as_deref(), Some(AnyParseNode::Text(_))));
    let tree = parse_tree("\\text x", &settings).unwrap();
    match &tree[0] {
        AnyParseNode::Text(t) => assert_eq!(texts(&t.body), vec!["x"]),
        other => panic!("unexpected {:?}", other),
    }
}
