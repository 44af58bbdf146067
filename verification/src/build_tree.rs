//! The parts of tree building that do not depend on how a formula is laid
//! out: the options that a build starts from, the wrapper around display
//! math, and the node that shows an error.

use vstd::prelude::*;
use crate::build_common::{depth_of, height_of, largest, make_span, max_font_size_of};
use crate::dom_tree::{DomSpan, SymbolNode, VirtualNode, style_views};
use crate::options::{BASESIZE, Options, OptionsData, size_multiplier};
use crate::parse_error::ParseError;
use crate::settings::Settings;

verus! {

/// What the builders of the output formats have made of a syntax tree.
#[derive(Debug, PartialEq)]
pub enum Built {
    Html(DomSpan),
    Mathml(DomSpan),
    HtmlAndMathml { mathml: DomSpan, html: DomSpan },
}

/// The options that a build with `settings` starts from: the base size, and
/// the limits of the settings. No limit on sizes is the largest limit.
pub fn options_from_settings(settings: &Settings) -> (options: Options)
    ensures
        options.color is None,
        options.size == BASESIZE,
        options.text_size == BASESIZE,
        !options.phantom,
        options.font@.len() == 0,
        options.font_family@.len() == 0,
        options.size_multiplier == size_multiplier(BASESIZE as int),
        options.max_size == match settings.max_size {
            Some(m) => m,
            None => usize::MAX,
        },
        options.min_rule_thickness == settings.min_rule_thickness,
{
    let mut data = OptionsData::default();
    data.max_size = match settings.max_size {
        Some(m) => m,
        None => usize::MAX,
    };
    data.min_rule_thickness = settings.min_rule_thickness;
    Options::new(data)
}

/// The classes of the wrapper around display math.
pub open spec fn display_classes(settings: &Settings) -> Seq<Seq<char>> {
    let base = seq!["katex-display"@];
    let left = if settings.leqno {
        base.push("leqno"@)
    } else {
        base
    };
    if settings.fleqn {
        left.push("fleqn"@)
    } else {
        left
    }
}

/// In display mode, wraps `node` in a span of the class `katex-display`,
/// with `leqno` and `fleqn` where the settings ask for them; else hands
/// `node` back.
pub fn display_wrap(node: DomSpan, settings: &Settings) -> (wrapped: DomSpan)
    ensures
        !settings.display_mode ==> wrapped == node,
        settings.display_mode ==> {
            &&& crate::namespace::string_views(wrapped.classes@) == display_classes(settings)
            &&& wrapped.children@ == seq![VirtualNode::Span(node)]
            &&& wrapped.attributes@.len() == 0
            &&& wrapped.style@.len() == 0
            &&& wrapped.height == node.height
            &&& wrapped.depth == node.depth
            &&& wrapped.max_font_size == node.max_font_size
        },
{
    if settings.display_mode {
        let mut classes: Vec<String> = Vec::new();
        classes.push(String::from_str("katex-display"));
        if settings.leqno {
            classes.push(String::from_str("leqno"));
        }
        if settings.fleqn {
            classes.push(String::from_str("fleqn"));
        }
        assert(crate::namespace::string_views(classes@) =~= display_classes(settings));
        let mut children: Vec<VirtualNode> = Vec::new();
        children.push(VirtualNode::Span(node));
        let ghost only = children@;
        assert(only =~= seq![VirtualNode::Span(node)]);
        let wrapped = make_span(Some(classes), Some(children), None, None);
        proof {
            assert(only.drop_last() =~= Seq::<VirtualNode>::empty());
            assert(largest(only.drop_last(), |n: VirtualNode| height_of(n)) == 0);
            assert(largest(only.drop_last(), |n: VirtualNode| depth_of(n)) == 0);
            assert(largest(only.drop_last(), |n: VirtualNode| max_font_size_of(n)) == 0);
            assert(style_views(wrapped.style@).len() == 0);
        }
        wrapped
    } else {
        node
    }
}

/// A span of the class `katex` around `children`, wrapped for display mode.
fn katex_span(children: Vec<VirtualNode>, settings: &Settings) -> (node: DomSpan)
    ensures
        !settings.display_mode ==> katex_node(node, children@),
        settings.display_mode ==> {
            &&& crate::namespace::string_views(node.classes@) == display_classes(settings)
            &&& node.children@.len() == 1
            &&& node.children@[0] matches VirtualNode::Span(inner) && katex_node(inner, children@)
        },
{
    let mut classes: Vec<String> = Vec::new();
    classes.push(String::from_str("katex"));
    assert(crate::namespace::string_views(classes@) =~= seq!["katex"@]);
    let inner = make_span(Some(classes), Some(children), None, None);
    assert(style_views(inner.style@).len() == 0);
    display_wrap(inner, settings)
}

/// `node` is a span of the class `katex` that holds `children` and nothing
/// else.
pub open spec fn katex_node(node: DomSpan, children: Seq<VirtualNode>) -> bool {
    &&& crate::namespace::string_views(node.classes@) == seq!["katex"@]
    &&& node.children@ == children
    &&& node.attributes@.len() == 0
    &&& node.style@.len() == 0
}

/// Puts together what the builders have made: MathML alone stands as it
/// is; HTML, with the MathML before it where there is some, goes into a span
/// of the class `katex`, which in display mode is wrapped once more.
pub fn build_tree(built: Built, settings: &Settings) -> (node: DomSpan)
    ensures
        match built {
            Built::Mathml(mathml) => node == mathml,
            Built::Html(html) => if settings.display_mode {
                &&& crate::namespace::string_views(node.classes@) == display_classes(settings)
                &&& node.children@.len() == 1
                &&& node.children@[0] matches VirtualNode::Span(inner) && katex_node(
                    inner,
                    seq![VirtualNode::Span(html)],
                )
            } else {
                katex_node(node, seq![VirtualNode::Span(html)])
            },
            Built::HtmlAndMathml { mathml, html } => if settings.display_mode {
                &&& crate::namespace::string_views(node.classes@) == display_classes(settings)
                &&& node.children@.len() == 1
                &&& node.children@[0] matches VirtualNode::Span(inner) && katex_node(
                    inner,
                    seq![VirtualNode::Span(mathml), VirtualNode::Span(html)],
                )
            } else {
                katex_node(node, seq![VirtualNode::Span(mathml), VirtualNode::Span(html)])
            },
        },
{
    match built {
        Built::Mathml(mathml) => mathml,
        Built::Html(html) => {
            let mut children: Vec<VirtualNode> = Vec::new();
            children.push(VirtualNode::Span(html));
            assert(children@ =~= seq![VirtualNode::Span(html)]);
            katex_span(children, settings)
        },
        Built::HtmlAndMathml { mathml, html } => {
            let mut children: Vec<VirtualNode> = Vec::new();
            children.push(VirtualNode::Span(mathml));
            children.push(VirtualNode::Span(html));
            assert(children@ =~= seq![VirtualNode::Span(mathml), VirtualNode::Span(html)]);
            katex_span(children, settings)
        },
    }
}

/// Puts HTML into a span of the class `katex`, which in display mode is
/// wrapped once more.
pub fn build_html_tree(html: DomSpan, settings: &Settings) -> (node: DomSpan)
    ensures
        if settings.display_mode {
            &&& crate::namespace::string_views(node.classes@) == display_classes(settings)
            &&& node.children@.len() == 1
            &&& node.children@[0] matches VirtualNode::Span(inner) && katex_node(
                inner,
                seq![VirtualNode::Span(html)],
            )
        } else {
            katex_node(node, seq![VirtualNode::Span(html)])
        },
{
    let mut children: Vec<VirtualNode> = Vec::new();
    children.push(VirtualNode::Span(html));
    assert(children@ =~= seq![VirtualNode::Span(html)]);
    katex_span(children, settings)
}

/// Renders the invalid expression as a span of the class `katex-error`,
/// with the error message as its title, in the error color of the
/// settings.
pub fn render_error(error: &ParseError, expression: &str, options: &Settings) -> (node: DomSpan)
    ensures
        crate::namespace::string_views(node.classes@) == seq!["katex-error"@],
        node.children@.len() == 1,
        node.children@[0] matches VirtualNode::Symbol(s) && s.text@ == expression@
            && s.classes@.len() == 0 && s.style@.len() == 0 && s.italic == 0,
        style_views(node.attributes@) == seq![
            ("title"@, error@.message),
            ("style"@, "color:"@ + options.error_color@),
        ],
        node.style@.len() == 0,
{
    let mut classes: Vec<String> = Vec::new();
    classes.push(String::from_str("katex-error"));
    assert(crate::namespace::string_views(classes@) =~= seq!["katex-error"@]);
    let mut children: Vec<VirtualNode> = Vec::new();
    children.push(
        VirtualNode::Symbol(
            SymbolNode {
                text: String::from_str(expression),
                height: 0,
                depth: 0,
                italic: 0,
                skew: 0,
                width: 0,
                max_font_size: 0,
                classes: Vec::new(),
                style: Vec::new(),
            },
        ),
    );
    let mut node = make_span(Some(classes), Some(children), None, None);
    assert(style_views(node.style@).len() == 0);
    node.set_attribute(String::from_str("title"), error.to_string());
    node.set_attribute(
        String::from_str("style"),
        String::from_str("color:").concat(options.error_color.as_str()),
    );
    assert(style_views(node.attributes@) =~= seq![
        ("title"@, error@.message),
        ("style"@, "color:"@ + options.error_color@),
    ]);
    node
}

} // verus!
