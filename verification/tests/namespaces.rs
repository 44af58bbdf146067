use katex::functions::builtin_macros;
use katex::namespace::{MacroDefinition, MacroExpansion, Namespace};
use katex::token::Token;

fn text(s: &str) -> MacroDefinition {
    MacroDefinition::Text(s.to_string())
}

fn shown(ns: &Namespace, name: &str) -> Option<String> {
    match ns.get(name) {
        Some(MacroDefinition::Text(t)) => Some(t.clone()),
        Some(MacroDefinition::Expansion(e)) => Some(format!("{} tokens", e.tokens.len())),
        None => None,
    }
}

#[test]
fn builtins_and_globals_fill_the_base_layer() {
    let globals = vec![
        ("\\foo".to_string(), "bar".to_string()),
        ("\\lq".to_string(), "x".to_string()),
        ("\\foo".to_string(), "baz".to_string()),
    ];
    let ns = Namespace::new(builtin_macros(), &globals);
    assert_eq!(ns.depth(), 0);
    assert_eq!(shown(&ns, "\\bgroup"), Some("{".to_string()));
    assert_eq!(shown(&ns, "\\foo"), Some("baz".to_string()));
    assert_eq!(shown(&ns, "\\lq"), Some("x".to_string()));
    assert!(ns.has("~"));
    assert!(!ns.has("\\nothing"));
}

#[test]
fn definition_in_a_group_ends_with_it() {
    let mut ns = Namespace::new(Vec::new(), &Vec::new());
    ns.insert("\\x".to_string(), text("outer"));
    ns.begin_group();
    assert_eq!(shown(&ns, "\\x"), Some("outer".to_string()));
    ns.insert("\\x".to_string(), text("inner"));
    ns.insert("\\y".to_string(), text("why"));
    assert_eq!(shown(&ns, "\\x"), Some("inner".to_string()));
    assert!(ns.has("\\y"));
    assert!(ns.end_group().is_ok());
    assert_eq!(shown(&ns, "\\x"), Some("outer".to_string()));
    assert!(!ns.has("\\y"));
}

#[test]
fn lookup_takes_the_topmost_layer() {
    let mut ns = Namespace::new(Vec::new(), &Vec::new());
    ns.insert("\\x".to_string(), text("0"));
    ns.begin_group();
    ns.insert("\\x".to_string(), text("1"));
    ns.begin_group();
    assert_eq!(shown(&ns, "\\x"), Some("1".to_string()));
    ns.insert("\\x".to_string(), text("2"));
    assert_eq!(shown(&ns, "\\x"), Some("2".to_string()));
    assert_eq!(ns.depth(), 2);
}

#[test]
fn end_group_without_group_fails() {
    let mut ns = Namespace::new(Vec::new(), &Vec::new());
    ns.insert("\\x".to_string(), text("0"));
    assert!(ns.end_group().is_err());
    assert_eq!(shown(&ns, "\\x"), Some("0".to_string()));
}

#[test]
fn end_groups_closes_all_and_is_safe_when_flat() {
    let mut ns = Namespace::new(Vec::new(), &Vec::new());
    ns.end_groups();
    assert_eq!(ns.depth(), 0);
    ns.begin_group();
    ns.begin_group();
    ns.insert("\\x".to_string(), text("1"));
    ns.end_groups();
    assert_eq!(ns.depth(), 0);
    assert!(!ns.has("\\x"));
}

#[test]
fn global_definition_outlives_groups() {
    let mut ns = Namespace::new(Vec::new(), &Vec::new());
    ns.begin_group();
    ns.insert("\\x".to_string(), text("local"));
    ns.begin_group();
    ns.insert_global("\\x".to_string(), text("global"));
    assert_eq!(shown(&ns, "\\x"), Some("global".to_string()));
    ns.end_groups();
    assert_eq!(shown(&ns, "\\x"), Some("global".to_string()));
}

#[test]
fn remove_takes_a_name_out_of_every_layer() {
    let mut ns = Namespace::new(Vec::new(), &Vec::new());
    ns.insert("\\x".to_string(), text("0"));
    ns.begin_group();
    ns.insert("\\x".to_string(), text("1"));
    ns.remove("\\x");
    assert!(!ns.has("\\x"));
    ns.end_groups();
    assert!(!ns.has("\\x"));
}

#[test]
fn expansion_is_stored_as_given() {
    let mut ns = Namespace::new(Vec::new(), &Vec::new());
    let tokens = vec![Token::new("b".to_string(), None), Token::new("a".to_string(), None)];
    ns.insert(
        "\\ab".to_string(),
        MacroDefinition::Expansion(MacroExpansion { tokens, num_args: 0, delimiters: None }),
    );
    match ns.get("\\ab") {
        Some(MacroDefinition::Expansion(e)) => {
            assert_eq!(e.num_args, 0);
            assert_eq!(e.tokens[0].text, "b");
            assert_eq!(e.tokens[1].text, "a");
        }
        other => panic!("unexpected {:?}", other),
    }
}
