use katex::build_common::make_span;
use katex::build_tree::{
    build_html_tree, build_tree, display_wrap, options_from_settings, render_error, Built,
};
use katex::dom_tree::{
    create_class, init_node, to_markup, to_node, Anchor, HtmlDomNode, Img, LineNode, PathNode,
    Span, SvgChildNode, SvgNode, SymbolNode, VirtualNode,
};
use katex::lexer::Lexer;
use katex::options::{FontShape, FontWeight, Options, OptionsData};
use katex::parse_error::{ParseError, ParseErrorKind};
use katex::parse_node::{AnyParseNode, FontParseNode, MathOrdParseNode, OrdGroupParseNode};
use katex::parser::Mode;
use katex::settings::{OutputFormat, Settings};
use katex::utils::{
    contains, deflt, escape, get_base_elem, hyphenate, is_character_box, protocol_from_captures,
    protocol_from_url,
};

fn symbol(text: &str) -> SymbolNode {
    SymbolNode {
        text: text.to_string(),
        height: 0,
        depth: 0,
        italic: 0,
        skew: 0,
        width: 0,
        max_font_size: 0,
        classes: Vec::new(),
        style: Vec::new(),
    }
}

fn strings(items: &[&str]) -> Vec<String> {
    items.iter().map(|s| s.to_string()).collect()
}

#[test]
fn contains_finds_an_element() {
    assert!(contains(&[1, 2, 3], &2));
    assert!(!contains(&[1, 2, 3], &4));
    let empty: [u8; 0] = [];
    assert!(!contains(&empty, &0));
}

#[test]
fn deflt_takes_the_setting_or_the_default() {
    assert_eq!(deflt(Some(3), 5), 3);
    assert_eq!(deflt(None, 5), 5);
}

#[test]
fn hyphenate_marks_capitals_and_lowers_them() {
    assert_eq!(hyphenate("backgroundColor"), "background-color");
    assert_eq!(hyphenate("marginRight"), "margin-right");
    assert_eq!(hyphenate("color"), "color");
    assert_eq!(hyphenate("ABc"), "-a-bc");
    assert_eq!(hyphenate(""), "");
}

#[test]
fn escape_replaces_the_characters_of_markup() {
    assert_eq!(escape("a<b>&\"c'"), "a&lt;b&gt;&amp;&quot;c&#x27;");
    assert_eq!(escape("plain"), "plain");
    assert_eq!(escape(""), "");
    assert_eq!(escape("&amp;"), "&amp;amp;");
}

#[test]
fn protocol_of_a_url() {
    assert_eq!(protocol_from_url("https://example.org"), Some("https".to_string()));
    assert_eq!(protocol_from_url("  HTTP://example.org"), Some("http".to_string()));
    assert_eq!(protocol_from_url("mailto:someone"), Some("mailto".to_string()));
    assert_eq!(protocol_from_url("a+b-c.d:x"), Some("a+b-c.d".to_string()));
}

#[test]
fn url_without_protocol_is_relative() {
    assert_eq!(protocol_from_url("/path/to:file"), Some("_relative".to_string()));
    assert_eq!(protocol_from_url("page.html"), Some("_relative".to_string()));
    assert_eq!(protocol_from_url("#anchor:x"), Some("_relative".to_string()));
    assert_eq!(protocol_from_url(""), Some("_relative".to_string()));
}

#[test]
fn url_with_invalid_protocol_is_rejected() {
    assert_eq!(protocol_from_url("java\tscript:alert(1)"), None);
    assert_eq!(protocol_from_url("javascript&colon;alert(1)"), None);
    assert_eq!(protocol_from_url("javascript&#58;alert(1)"), None);
    assert_eq!(protocol_from_url("javascript&#x3a;alert(1)"), None);
    assert_eq!(protocol_from_url("1http://x"), None);
    assert_eq!(protocol_from_url(":x"), None);
}

#[test]
fn protocol_from_what_was_captured() {
    let groups =
        |a: &str, b: &str| Some(vec![Some(format!("{}{}", a, b)), Some(a.to_string()), Some(b.to_string())]);
    assert_eq!(protocol_from_captures(None), Some("_relative".to_string()));
    assert_eq!(protocol_from_captures(groups("Ftp", ":")), Some("ftp".to_string()));
    assert_eq!(protocol_from_captures(groups("ftp", "&colon")), None);
    assert_eq!(protocol_from_captures(groups("f tp", ":")), None);
    assert_eq!(protocol_from_captures(groups("", ":")), None);
    assert_eq!(protocol_from_captures(Some(vec![Some(":".to_string())])), None);
    assert_eq!(protocol_from_captures(Some(vec![None, None, Some(":".to_string())])), None);
}

fn mathord(text: &str) -> AnyParseNode {
    AnyParseNode::MathOrd(MathOrdParseNode { mode: Mode::Math, loc: None, text: text.to_string() })
}

fn group(body: Vec<AnyParseNode>) -> AnyParseNode {
    AnyParseNode::OrdGroup(OrdGroupParseNode {
        mode: Mode::Math,
        loc: None,
        body,
        semisimple: None,
    })
}

#[test]
fn base_of_nested_single_groups_is_the_innermost_element() {
    let node = group(vec![AnyParseNode::Font(FontParseNode {
        mode: Mode::Math,
        loc: None,
        font: "mathbf".to_string(),
        body: Box::new(group(vec![mathord("x")])),
    })]);
    assert_eq!(get_base_elem(&node), &mathord("x"));
    assert!(is_character_box(&node));
}

#[test]
fn group_of_two_elements_is_its_own_base() {
    let node = group(vec![mathord("x"), mathord("y")]);
    assert_eq!(get_base_elem(&node), &node);
    assert!(!is_character_box(&node));
    assert!(is_character_box(&mathord("x")));
}

#[test]
fn class_name_joins_classes_that_are_not_empty() {
    assert_eq!(create_class(&strings(&["a", "", "b", ""])), "a b");
    assert_eq!(create_class(&strings(&["", ""])), "");
    assert_eq!(create_class(&strings(&["only"])), "only");
    assert_eq!(create_class(&[]), "");
}

#[test]
fn has_class_looks_for_the_class() {
    let node = init_node(Some(strings(&["mord", "mtight"])), None, None);
    assert!(node.has_class("mtight"));
    assert!(!node.has_class("mti"));
}

#[test]
fn init_node_takes_the_color_of_the_options() {
    let mut data = OptionsData::default();
    data.color = Some("red".to_string());
    let node = init_node(None, Some(Options::new(data)), None);
    assert!(node.classes.is_empty());
    assert_eq!(node.style, vec![("color".to_string(), "red".to_string())]);
    assert_eq!(node.height, 0);
    assert!(node.children.is_empty());
}

#[test]
fn markup_of_a_node_with_classes_styles_and_attributes() {
    let node = HtmlDomNode {
        classes: strings(&["a", "", "b<"]),
        attributes: vec![("title".to_string(), "x\"y".to_string())],
        height: 0,
        depth: 0,
        max_font_size: 0,
        style: vec![
            ("marginRight".to_string(), "1em".to_string()),
            ("color".to_string(), "red".to_string()),
        ],
        children: vec![VirtualNode::Symbol(symbol("x<y"))],
    };
    let expected = "<span class=\"a b&lt;\" style=\"margin-right:1em;color:red;\" title=\"x&quot;y\">x&lt;y</span>";
    assert_eq!(to_markup(&node, "span"), expected);
    assert_eq!(to_node(&node, "span"), expected);
}

#[test]
fn markup_of_an_empty_node() {
    let node = init_node(None, None, None);
    assert_eq!(to_markup(&node, "div"), "<div></div>");
}

#[test]
fn markup_of_a_symbol() {
    assert_eq!(VirtualNode::Symbol(symbol("a&b")).to_markup(), "a&amp;b");
    let mut classed = symbol("x");
    classed.classes = strings(&["mord"]);
    classed.italic = 12;
    classed.style = vec![("fontSize".to_string(), "2em".to_string())];
    assert_eq!(
        VirtualNode::Symbol(classed).to_markup(),
        "<span class=\"mord\" style=\"margin-right:12em;font-size:2em;\">x</span>"
    );
}

#[test]
fn markup_of_nested_spans_and_anchors() {
    let inner = make_span(
        Some(strings(&["mord"])),
        Some(vec![VirtualNode::Symbol(symbol("a")), VirtualNode::Symbol(symbol("b"))]),
        None,
        None,
    );
    let mut anchor = Anchor {
        children: vec![init_node(Some(strings(&["x"])), None, None)],
        attributes: Vec::new(),
        classes: Vec::new(),
        height: 0,
        depth: 0,
        max_font_size: 0,
        style: Vec::new(),
    };
    anchor.set_attribute("href".to_string(), "https://example.org/?a&b".to_string());
    let outer = make_span(
        None,
        Some(vec![VirtualNode::Span(inner), VirtualNode::Anchor(anchor)]),
        None,
        None,
    );
    let node = VirtualNode::Span(outer);
    let expected = "<span><span class=\"mord\">ab</span><a href=\"https://example.org/?a&amp;b\"><span class=\"x\"></span></a></span>";
    assert_eq!(node.to_markup(), expected);
    assert_eq!(node.to_node(), expected);
}

#[test]
fn markup_of_images_and_drawings() {
    let img = VirtualNode::Img(Img {
        src: "a.png".to_string(),
        alt: "a \"b\"".to_string(),
        classes: Vec::new(),
        height: 0,
        depth: 0,
        max_font_size: 0,
        style: vec![("height".to_string(), "1em".to_string())],
    });
    assert_eq!(
        img.to_markup(),
        "<img src=\"a.png\" alt=\"a &quot;b&quot;\" style=\"height:1em;\"/>"
    );
    let svg = VirtualNode::Svg(SvgNode {
        children: vec![
            SvgChildNode::SvgPathNode(PathNode {
                path_name: "sqrtMain".to_string(),
                alternate: Some("M0 0<".to_string()),
            }),
            SvgChildNode::SvgLineNode(LineNode {
                attributes: vec![("x1".to_string(), "0".to_string())],
            }),
        ],
        attributes: vec![("width".to_string(), "1em".to_string())],
    });
    assert_eq!(
        svg.to_markup(),
        "<svg xmlns=\"http://www.w3.org/2000/svg\" width='1em'><path d='M0 0&lt;'/><line x1='0'/></svg>"
    );
    let path =
        VirtualNode::Path(PathNode { path_name: "vec".to_string(), alternate: None });
    assert_eq!(path.to_markup(), "<path d='vec'/>");
    let line = VirtualNode::Line(LineNode { attributes: Vec::new() });
    assert_eq!(line.to_markup(), "<line/>");
}

#[test]
fn span_attribute_is_set() {
    let mut span: Span = make_span(None, None, None, None);
    span.set_attribute("title".to_string(), "t".to_string());
    assert_eq!(span.attributes, vec![("title".to_string(), "t".to_string())]);
}

#[test]
fn span_is_as_large_as_its_largest_child() {
    let mut a = symbol("a");
    a.height = 3;
    a.depth = 1;
    a.max_font_size = 5;
    let mut b = symbol("b");
    b.height = 2;
    b.depth = 4;
    b.max_font_size = 7;
    let span = make_span(
        Some(strings(&["mord"])),
        Some(vec![VirtualNode::Symbol(a), VirtualNode::Symbol(b)]),
        None,
        None,
    );
    assert_eq!(span.height, 3);
    assert_eq!(span.depth, 4);
    assert_eq!(span.max_font_size, 7);
    assert_eq!(span.width, None);
    assert_eq!(span.classes, strings(&["mord"]));
    let empty = make_span(None, None, None, None);
    assert_eq!((empty.height, empty.depth, empty.max_font_size), (0, 0, 0));
}

#[test]
fn default_options_data() {
    let data = OptionsData::default();
    assert_eq!(data.size, 6);
    assert_eq!(data.text_size, 6);
    assert_eq!(data.color, None);
    assert!(!data.phantom);
    assert_eq!(data.font_weight, None);
    assert_eq!(data.max_size, 0);
}

#[test]
fn options_take_their_multiplier_from_the_size() {
    let expected = [500, 600, 700, 800, 900, 1000, 1200, 1440, 1728, 2074, 2488];
    for size in 1..=11 {
        let mut data = OptionsData::default();
        data.size = size;
        assert_eq!(Options::new(data).size_multiplier, expected[size - 1]);
    }
    let options = Options::new(OptionsData::default());
    assert_eq!(options.font, "");
    assert_eq!(options.font_weight, FontWeight::Unset);
    assert_eq!(options.font_shape, FontShape::TextUp);
}

#[test]
fn extended_options_keep_their_own_properties() {
    let mut data = OptionsData::default();
    data.size = 3;
    data.color = Some("blue".to_string());
    data.font = Some("mathbf".to_string());
    data.font_weight = Some(FontWeight::TextBF);
    let options = Options::new(data);
    let mut extension = OptionsData::default();
    extension.size = 9;
    extension.max_size = 17;
    extension.min_rule_thickness = 4;
    let extended = options.extend(extension);
    assert_eq!(extended.size, 3);
    assert_eq!(extended.size_multiplier, 700);
    assert_eq!(extended.color, Some("blue".to_string()));
    assert_eq!(extended.font, "mathbf");
    assert_eq!(extended.font_weight, FontWeight::TextBF);
    assert_eq!(extended.max_size, 17);
    assert_eq!(extended.min_rule_thickness, 4);
}

#[test]
fn default_settings() {
    let settings = Settings::default();
    assert!(!settings.display_mode);
    assert_eq!(settings.output, OutputFormat::Html);
    assert!(settings.throw_on_error);
    assert_eq!(settings.error_color, "#cc0000");
    assert!(settings.macros.is_empty());
    assert_eq!(settings.min_rule_thickness, 0);
    assert_eq!(settings.max_size, None);
    assert_eq!(settings.max_expand, 1000);
    assert!(settings.trust);
    assert!(!settings.global_group);
}

#[test]
fn build_starts_from_the_limits_of_the_settings() {
    let mut settings = Settings::default();
    settings.min_rule_thickness = 40;
    let options = options_from_settings(&settings);
    assert_eq!(options.size, 6);
    assert_eq!(options.size_multiplier, 1000);
    assert_eq!(options.max_size, usize::MAX);
    assert_eq!(options.min_rule_thickness, 40);
    settings.max_size = Some(5000);
    assert_eq!(options_from_settings(&settings).max_size, 5000);
}

#[test]
fn display_math_is_wrapped() {
    let mut settings = Settings::default();
    let inner = make_span(Some(strings(&["katex"])), None, None, None);
    let same = display_wrap(inner, &settings);
    assert_eq!(same.classes, strings(&["katex"]));
    settings.display_mode = true;
    settings.fleqn = true;
    let wrapped = display_wrap(same, &settings);
    assert_eq!(wrapped.classes, strings(&["katex-display", "fleqn"]));
    assert_eq!(wrapped.children.len(), 1);
    settings.leqno = true;
    let twice = display_wrap(wrapped, &settings);
    assert_eq!(twice.classes, strings(&["katex-display", "leqno", "fleqn"]));
}

#[test]
fn error_is_rendered_as_a_span() {
    let settings = Settings::default();
    let source = Lexer::new("\\x", Some(0));
    let error = ParseError::new(ParseErrorKind::UndefinedControlSequence, "bad", None, &source);
    let node = render_error(&error, "\\x", &settings);
    assert_eq!(
        VirtualNode::Span(node).to_markup(),
        "<span class=\"katex-error\" title=\"KaTeX parse error: bad\" style=\"color:#cc0000\">\\x</span>"
    );
}

#[test]
fn built_parts_are_put_together() {
    let mut settings = Settings::default();
    let html = || make_span(Some(strings(&["katex-html"])), None, None, None);
    let mathml = || make_span(Some(strings(&["katex-mathml"])), None, None, None);
    let node = build_tree(Built::Html(html()), &settings);
    assert_eq!(
        VirtualNode::Span(node).to_markup(),
        "<span class=\"katex\"><span class=\"katex-html\"></span></span>"
    );
    let node = build_tree(Built::Mathml(mathml()), &settings);
    assert_eq!(node.classes, strings(&["katex-mathml"]));
    let node = build_tree(Built::HtmlAndMathml { mathml: mathml(), html: html() }, &settings);
    assert_eq!(
        VirtualNode::Span(node).to_markup(),
        "<span class=\"katex\"><span class=\"katex-mathml\"></span><span class=\"katex-html\"></span></span>"
    );
    settings.display_mode = true;
    settings.leqno = true;
    let node = build_html_tree(html(), &settings);
    assert_eq!(
        VirtualNode::Span(node).to_markup(),
        "<span class=\"katex-display leqno\"><span class=\"katex\"><span class=\"katex-html\"></span></span></span>"
    );
    let node = build_tree(Built::Mathml(mathml()), &settings);
    assert_eq!(node.classes, strings(&["katex-mathml"]));
}
