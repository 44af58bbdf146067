//! These objects store the data about the DOM nodes we create, as well as some
//! extra data. They can then be transformed into HTML markup using
//! `to_markup`. They are useful for both storing extra properties on the
//! nodes, as well as providing a way to easily work with the DOM.

use vstd::prelude::*;
use crate::options::Options;
use crate::text::{push_decimal, push_str, string_from};
use crate::utils::{escaped, hyphen_marked, hyphenate, lowercase_of, push_escaped};

verus! {

pub type DomSpan = Span;

/// Type representing CSS styles: each property with its value, in the order
/// in which they are written out.
pub type CssStyle = Vec<(String, String)>;

/// Represents an HTML DOM node.
#[derive(Debug, PartialEq)]
pub struct HtmlDomNode {
    pub classes: Vec<String>,
    pub attributes: Vec<(String, String)>,
    pub height: usize,
    pub depth: usize,
    pub max_font_size: usize,
    pub style: CssStyle,
    pub children: Vec<VirtualNode>,
}

/// Represents a virtual node in the DOM.
#[derive(Debug, PartialEq)]
pub enum VirtualNode {
    Span(Span),
    Anchor(Anchor),
    Img(Img),
    Symbol(SymbolNode),
    Svg(SvgNode),
    Path(PathNode),
    Line(LineNode),
}

/// Represents a span node containing DOM nodes.
#[derive(Debug, PartialEq)]
pub struct Span {
    pub children: Vec<VirtualNode>,
    pub attributes: Vec<(String, String)>,
    pub classes: Vec<String>,
    pub height: usize,
    pub depth: usize,
    pub width: Option<usize>,
    pub max_font_size: usize,
    pub style: CssStyle,
}

/// Represents an anchor element with a hyperlink.
#[derive(Debug, PartialEq)]
pub struct Anchor {
    pub children: Vec<HtmlDomNode>,
    pub attributes: Vec<(String, String)>,
    pub classes: Vec<String>,
    pub height: usize,
    pub depth: usize,
    pub max_font_size: usize,
    pub style: CssStyle,
}

/// Represents an image embed element.
#[derive(Debug, PartialEq)]
pub struct Img {
    pub src: String,
    pub alt: String,
    pub classes: Vec<String>,
    pub height: usize,
    pub depth: usize,
    pub max_font_size: usize,
    pub style: CssStyle,
}

/// Represents a symbol node.
#[derive(Debug, PartialEq)]
pub struct SymbolNode {
    pub text: String,
    pub height: usize,
    pub depth: usize,
    pub italic: usize,
    pub skew: usize,
    pub width: usize,
    pub max_font_size: usize,
    pub classes: Vec<String>,
    pub style: CssStyle,
}

/// Represents an SVG node.
#[derive(Debug, PartialEq)]
pub struct SvgNode {
    pub children: Vec<SvgChildNode>,
    pub attributes: Vec<(String, String)>,
}

#[derive(Debug, PartialEq)]
pub enum SvgChildNode {
    SvgPathNode(PathNode),
    SvgLineNode(LineNode),
}

/// Represents a path node within SVG.
#[derive(Debug, PartialEq)]
pub struct PathNode {
    pub path_name: String,
    pub alternate: Option<String>,
}

/// Represents a line node within SVG.
#[derive(Debug, PartialEq)]
pub struct LineNode {
    pub attributes: Vec<(String, String)>,
}

/// The class name that a list of classes amounts to: the classes that are
/// not empty, with a space between them.
pub open spec fn class_name(classes: Seq<String>) -> Seq<char>
    decreases classes.len(),
{
    if classes.len() == 0 {
        Seq::empty()
    } else {
        let rest = class_name(classes.drop_last());
        let last = classes.last()@;
        if last.len() == 0 {
            rest
        } else if rest.len() == 0 {
            last
        } else {
            rest + " "@ + last
        }
    }
}

/// The styles as they stand in a `style` attribute: each property,
/// hyphenated, with its value.
pub open spec fn style_text(style: Seq<(String, String)>) -> Seq<char>
    decreases style.len(),
{
    if style.len() == 0 {
        Seq::empty()
    } else {
        style_text(style.drop_last()) + lowercase_of(hyphen_marked(style.last().0@)) + ":"@
            + style.last().1@ + ";"@
    }
}

/// The attributes as they stand in an opening tag, each value escaped and in
/// quotes of the kind `quote`.
pub open spec fn attributes_text(attributes: Seq<(String, String)>, quote: Seq<char>) -> Seq<
    char,
>
    decreases attributes.len(),
{
    if attributes.len() == 0 {
        Seq::empty()
    } else {
        attributes_text(attributes.drop_last(), quote) + " "@ + attributes.last().0@ + "="@
            + quote + escaped(attributes.last().1@) + quote
    }
}

/// The `class` attribute, if there are classes.
pub open spec fn class_attribute(classes: Seq<String>) -> Seq<char> {
    if classes.len() == 0 {
        Seq::empty()
    } else {
        " class=\""@ + escaped(class_name(classes)) + "\""@
    }
}

/// The `style` attribute for the styles `styles`, if there are any.
pub open spec fn style_attribute(styles: Seq<char>) -> Seq<char> {
    if styles.len() == 0 {
        Seq::empty()
    } else {
        " style=\""@ + escaped(styles) + "\""@
    }
}

/// The texts of `parts`, one after the other.
pub open spec fn concat_all(parts: Seq<Seq<char>>) -> Seq<char>
    decreases parts.len(),
{
    if parts.len() == 0 {
        Seq::empty()
    } else {
        concat_all(parts.drop_last()) + parts.last()
    }
}

/// The markup of an element: opening tag with classes, styles and
/// attributes, the markup of the children, closing tag.
pub open spec fn element_markup(
    tag: Seq<char>,
    classes: Seq<String>,
    style: Seq<(String, String)>,
    attributes: Seq<(String, String)>,
    inner: Seq<char>,
) -> Seq<char> {
    "<"@ + tag + class_attribute(classes) + style_attribute(style_text(style)) + attributes_text(
        attributes,
        "\""@,
    ) + ">"@ + inner + "</"@ + tag + ">"@
}

/// The markup of a path.
pub open spec fn path_markup(path: PathNode) -> Seq<char> {
    "<path d='"@ + escaped(
        match path.alternate {
            Some(d) => d@,
            None => path.path_name@,
        },
    ) + "'/>"@
}

/// The markup of a line.
pub open spec fn line_markup(line: LineNode) -> Seq<char> {
    "<line"@ + attributes_text(line.attributes@, "'"@) + "/>"@
}

/// The markup of a child of an SVG node.
pub open spec fn svg_child_markup(child: SvgChildNode) -> Seq<char> {
    match child {
        SvgChildNode::SvgPathNode(p) => path_markup(p),
        SvgChildNode::SvgLineNode(l) => line_markup(l),
    }
}

/// The markup of a symbol: its text, escaped, in a span if it has classes
/// or styles.
pub open spec fn symbol_markup(symbol: SymbolNode) -> Seq<char> {
    let styles = if symbol.italic > 0 {
        "margin-right:"@ + crate::text::decimal(symbol.italic as nat) + "em;"@ + style_text(
            symbol.style@,
        )
    } else {
        style_text(symbol.style@)
    };
    if symbol.classes@.len() == 0 && styles.len() == 0 {
        escaped(symbol.text@)
    } else {
        "<span"@ + class_attribute(symbol.classes@) + style_attribute(styles) + ">"@ + escaped(
            symbol.text@,
        ) + "</span>"@
    }
}

/// The markup of an image.
pub open spec fn img_markup(img: Img) -> Seq<char> {
    "<img src=\""@ + escaped(img.src@) + "\" alt=\""@ + escaped(img.alt@) + "\""@
        + style_attribute(style_text(img.style@)) + "/>"@
}

/// The markup of a node.
pub open spec fn markup(node: VirtualNode) -> Seq<char>
    decreases node, 0nat,
{
    match node {
        VirtualNode::Span(s) => element_markup(
            "span"@,
            s.classes@,
            s.style@,
            s.attributes@,
            span_children(s, s.children@.len()),
        ),
        VirtualNode::Anchor(a) => element_markup(
            "a"@,
            a.classes@,
            a.style@,
            a.attributes@,
            anchor_children(a, a.children@.len()),
        ),
        VirtualNode::Img(i) => img_markup(i),
        VirtualNode::Symbol(s) => symbol_markup(s),
        VirtualNode::Svg(s) => "<svg xmlns=\"http://www.w3.org/2000/svg\""@ + attributes_text(
            s.attributes@,
            "'"@,
        ) + ">"@ + svg_children(s.children@) + "</svg>"@,
        VirtualNode::Path(p) => path_markup(p),
        VirtualNode::Line(l) => line_markup(l),
    }
}

/// The markup of the first `n` children of a span.
pub open spec fn span_children(s: Span, n: nat) -> Seq<char>
    decreases s, n,
{
    if n == 0 || n > s.children@.len() {
        Seq::empty()
    } else {
        span_children(s, (n - 1) as nat) + markup(s.children@[n - 1])
    }
}

/// The markup of the first `n` children of an anchor, each a span.
pub open spec fn anchor_children(a: Anchor, n: nat) -> Seq<char>
    decreases a, n,
{
    if n == 0 || n > a.children@.len() {
        Seq::empty()
    } else {
        anchor_children(a, (n - 1) as nat) + html_markup(a.children@[n - 1], "span"@)
    }
}

/// The markup of the first `n` children of an HTML node.
pub open spec fn html_children(node: HtmlDomNode, n: nat) -> Seq<char>
    decreases node, n,
{
    if n == 0 || n > node.children@.len() {
        Seq::empty()
    } else {
        html_children(node, (n - 1) as nat) + markup(node.children@[n - 1])
    }
}

/// The markup of the children of an SVG node.
pub open spec fn svg_children(children: Seq<SvgChildNode>) -> Seq<char>
    decreases children.len(),
{
    if children.len() == 0 {
        Seq::empty()
    } else {
        svg_children(children.drop_last()) + svg_child_markup(children.last())
    }
}

/// The markup of an HTML node as an element `tag`.
pub open spec fn html_markup(node: HtmlDomNode, tag: Seq<char>) -> Seq<char>
    decreases node, node.children@.len() + 1,
{
    element_markup(
        tag,
        node.classes@,
        node.style@,
        node.attributes@,
        html_children(node, node.children@.len()),
    )
}

fn push_class_name(buf: &mut Vec<char>, classes: &[String])
    ensures
        final(buf)@ == old(buf)@ + class_name(classes@),
{
    let ghost start = buf@;
    let mut any = false;
    let mut i: usize = 0;
    assert(classes@.subrange(0, 0) =~= Seq::<String>::empty());
    assert(buf@ =~= start + class_name(classes@.subrange(0, 0)));
    while i < classes.len()
        invariant
            i <= classes.len(),
            buf@ == start + class_name(classes@.subrange(0, i as int)),
            any == (class_name(classes@.subrange(0, i as int)).len() > 0),
        decreases classes.len() - i,
    {
        let ghost before = class_name(classes@.subrange(0, i as int));
        let class = &classes[i];
        let empty = class.as_str().eq("");
        proof {
            reveal_strlit("");
            reveal_strlit(" ");
            assert(""@.len() == 0);
            assert(class@.len() == 0 ==> class@ =~= ""@);
        }
        if !empty {
            if any {
                push_str(buf, " ");
            }
            push_str(buf, class.as_str());
            any = true;
        }
        i += 1;
        proof {
            let part = classes@.subrange(0, i as int);
            assert(part.drop_last() =~= classes@.subrange(0, i - 1));
            assert(part.last() == *class);
            assert(buf@ =~= start + class_name(part));
        }
    }
    assert(classes@.subrange(0, classes.len() as int) =~= classes@);
}

/// Create an HTML className based on a list of classes. In addition to
/// joining with spaces, we also remove empty classes.
pub fn create_class(classes: &[String]) -> (name: String)
    ensures
        name@ == class_name(classes@),
{
    let mut buf: Vec<char> = Vec::new();
    push_class_name(&mut buf, classes);
    assert(buf@ =~= class_name(classes@));
    string_from(&buf)
}

fn push_style_text(buf: &mut Vec<char>, style: &Vec<(String, String)>)
    ensures
        final(buf)@ == old(buf)@ + style_text(style@),
{
    let ghost start = buf@;
    let mut i: usize = 0;
    assert(style@.subrange(0, 0) =~= Seq::<(String, String)>::empty());
    assert(buf@ =~= start + style_text(style@.subrange(0, 0)));
    while i < style.len()
        invariant
            i <= style.len(),
            buf@ == start + style_text(style@.subrange(0, i as int)),
        decreases style.len() - i,
    {
        let name = hyphenate(style[i].0.as_str());
        push_str(buf, name.as_str());
        push_str(buf, ":");
        push_str(buf, style[i].1.as_str());
        push_str(buf, ";");
        i += 1;
        proof {
            let part = style@.subrange(0, i as int);
            assert(part.drop_last() =~= style@.subrange(0, i - 1));
            assert(buf@ =~= start + style_text(part));
        }
    }
    assert(style@.subrange(0, style.len() as int) =~= style@);
}

fn push_attributes(buf: &mut Vec<char>, attributes: &Vec<(String, String)>, quote: &str)
    ensures
        final(buf)@ == old(buf)@ + attributes_text(attributes@, quote@),
{
    let ghost start = buf@;
    let mut i: usize = 0;
    assert(attributes@.subrange(0, 0) =~= Seq::<(String, String)>::empty());
    assert(buf@ =~= start + attributes_text(attributes@.subrange(0, 0), quote@));
    while i < attributes.len()
        invariant
            i <= attributes.len(),
            buf@ == start + attributes_text(attributes@.subrange(0, i as int), quote@),
        decreases attributes.len() - i,
    {
        push_str(buf, " ");
        push_str(buf, attributes[i].0.as_str());
        push_str(buf, "=");
        push_str(buf, quote);
        push_escaped(buf, attributes[i].1.as_str());
        push_str(buf, quote);
        i += 1;
        proof {
            let part = attributes@.subrange(0, i as int);
            assert(part.drop_last() =~= attributes@.subrange(0, i - 1));
            assert(buf@ =~= start + attributes_text(part, quote@));
        }
    }
    assert(attributes@.subrange(0, attributes.len() as int) =~= attributes@);
}

fn push_class_attribute(buf: &mut Vec<char>, classes: &Vec<String>)
    ensures
        final(buf)@ == old(buf)@ + class_attribute(classes@),
{
    if classes.len() > 0 {
        let name = create_class(classes.as_slice());
        push_str(buf, " class=\"");
        push_escaped(buf, name.as_str());
        push_str(buf, "\"");
        assert(buf@ =~= old(buf)@ + class_attribute(classes@));
    } else {
        assert(buf@ =~= old(buf)@ + class_attribute(classes@));
    }
}

fn push_style_attribute(buf: &mut Vec<char>, styles: &Vec<char>)
    ensures
        final(buf)@ == old(buf)@ + style_attribute(styles@),
{
    if styles.len() > 0 {
        let text = string_from(styles);
        push_str(buf, " style=\"");
        push_escaped(buf, text.as_str());
        push_str(buf, "\"");
        assert(buf@ =~= old(buf)@ + style_attribute(styles@));
    } else {
        assert(buf@ =~= old(buf)@ + style_attribute(styles@));
    }
}

/// Appends the opening tag of an element.
fn push_opening(
    buf: &mut Vec<char>,
    tag: &str,
    classes: &Vec<String>,
    style: &Vec<(String, String)>,
    attributes: &Vec<(String, String)>,
)
    ensures
        final(buf)@ == old(buf)@ + ("<"@ + tag@ + class_attribute(classes@) + style_attribute(
            style_text(style@),
        ) + attributes_text(attributes@, "\""@) + ">"@),
{
    push_str(buf, "<");
    push_str(buf, tag);
    // Add the class
    push_class_attribute(buf, classes);
    // Add the styles, after hyphenation
    let mut styles: Vec<char> = Vec::new();
    push_style_text(&mut styles, style);
    assert(styles@ =~= style_text(style@));
    push_style_attribute(buf, &styles);
    // Add the attributes
    push_attributes(buf, attributes, "\"");
    push_str(buf, ">");
    assert(buf@ =~= old(buf)@ + ("<"@ + tag@ + class_attribute(classes@) + style_attribute(
        style_text(style@),
    ) + attributes_text(attributes@, "\""@) + ">"@));
}

fn push_closing(buf: &mut Vec<char>, tag: &str)
    ensures
        final(buf)@ == old(buf)@ + ("</"@ + tag@ + ">"@),
{
    push_str(buf, "</");
    push_str(buf, tag);
    push_str(buf, ">");
    assert(buf@ =~= old(buf)@ + ("</"@ + tag@ + ">"@));
}

fn push_path(buf: &mut Vec<char>, path: &PathNode)
    ensures
        final(buf)@ == old(buf)@ + path_markup(*path),
{
    push_str(buf, "<path d='");
    match &path.alternate {
        Some(d) => push_escaped(buf, d.as_str()),
        None => push_escaped(buf, path.path_name.as_str()),
    }
    push_str(buf, "'/>");
    assert(buf@ =~= old(buf)@ + path_markup(*path));
}

fn push_line(buf: &mut Vec<char>, line: &LineNode)
    ensures
        final(buf)@ == old(buf)@ + line_markup(*line),
{
    push_str(buf, "<line");
    push_attributes(buf, &line.attributes, "'");
    push_str(buf, "/>");
    assert(buf@ =~= old(buf)@ + line_markup(*line));
}

fn push_symbol(buf: &mut Vec<char>, symbol: &SymbolNode)
    ensures
        final(buf)@ == old(buf)@ + symbol_markup(*symbol),
{
    let mut styles: Vec<char> = Vec::new();
    if symbol.italic > 0 {
        push_str(&mut styles, "margin-right:");
        push_decimal(&mut styles, symbol.italic);
        push_str(&mut styles, "em;");
    }
    push_style_text(&mut styles, &symbol.style);
    proof {
        reveal_strlit("margin-right:");
        assert("margin-right:"@.len() > 0);
        if symbol.italic > 0 {
            assert(styles@ =~= "margin-right:"@ + crate::text::decimal(symbol.italic as nat)
                + "em;"@ + style_text(symbol.style@));
        } else {
            assert(styles@ =~= style_text(symbol.style@));
        }
    }
    if symbol.classes.len() == 0 && styles.len() == 0 {
        push_escaped(buf, symbol.text.as_str());
    } else {
        push_str(buf, "<span");
        push_class_attribute(buf, &symbol.classes);
        push_style_attribute(buf, &styles);
        push_str(buf, ">");
        push_escaped(buf, symbol.text.as_str());
        push_str(buf, "</span>");
        assert(buf@ =~= old(buf)@ + symbol_markup(*symbol));
    }
}

fn push_img(buf: &mut Vec<char>, img: &Img)
    ensures
        final(buf)@ == old(buf)@ + img_markup(*img),
{
    push_str(buf, "<img src=\"");
    push_escaped(buf, img.src.as_str());
    push_str(buf, "\" alt=\"");
    push_escaped(buf, img.alt.as_str());
    push_str(buf, "\"");
    let mut styles: Vec<char> = Vec::new();
    push_style_text(&mut styles, &img.style);
    assert(styles@ =~= style_text(img.style@));
    push_style_attribute(buf, &styles);
    push_str(buf, "/>");
    assert(buf@ =~= old(buf)@ + img_markup(*img));
}

/// Appends the markup of the span `s` to `buf`.
#[verifier::loop_isolation(false)]
fn push_span(buf: &mut Vec<char>, s: &Span)
    ensures
        final(buf)@ == old(buf)@ + markup(VirtualNode::Span(*s)),
    decreases *s,
{
    push_opening(buf, "span", &s.classes, &s.style, &s.attributes);
    let ghost opened = buf@;
    let mut i: usize = 0;
    assert(buf@ =~= opened + span_children(*s, 0));
    while i < s.children.len()
        invariant
            i <= s.children.len(),
            buf@ == opened + span_children(*s, i as nat),
        decreases s.children.len() - i,
    {
        push_markup(buf, &s.children[i]);
        i += 1;
        assert(buf@ =~= opened + span_children(*s, i as nat));
    }
    push_closing(buf, "span");
    assert(buf@ =~= old(buf)@ + markup(VirtualNode::Span(*s)));
}

/// Appends the markup of the anchor `a` to `buf`.
#[verifier::loop_isolation(false)]
fn push_anchor(buf: &mut Vec<char>, a: &Anchor)
    ensures
        final(buf)@ == old(buf)@ + markup(VirtualNode::Anchor(*a)),
    decreases *a,
{
    push_opening(buf, "a", &a.classes, &a.style, &a.attributes);
    let ghost opened = buf@;
    let mut i: usize = 0;
    assert(buf@ =~= opened + anchor_children(*a, 0));
    while i < a.children.len()
        invariant
            i <= a.children.len(),
            buf@ == opened + anchor_children(*a, i as nat),
        decreases a.children.len() - i,
    {
        push_html_markup(buf, &a.children[i], "span");
        i += 1;
        assert(buf@ =~= opened + anchor_children(*a, i as nat));
    }
    push_closing(buf, "a");
    assert(buf@ =~= old(buf)@ + markup(VirtualNode::Anchor(*a)));
}

/// Appends the markup of the SVG node `s` to `buf`.
#[verifier::loop_isolation(false)]
fn push_svg(buf: &mut Vec<char>, s: &SvgNode)
    ensures
        final(buf)@ == old(buf)@ + markup(VirtualNode::Svg(*s)),
{
    push_str(buf, "<svg xmlns=\"http://www.w3.org/2000/svg\"");
    push_attributes(buf, &s.attributes, "'");
    push_str(buf, ">");
    let ghost opened = buf@;
    let mut i: usize = 0;
    assert(s.children@.subrange(0, 0) =~= Seq::<SvgChildNode>::empty());
    assert(buf@ =~= opened + svg_children(s.children@.subrange(0, 0)));
    while i < s.children.len()
        invariant
            i <= s.children.len(),
            buf@ == opened + svg_children(s.children@.subrange(0, i as int)),
        decreases s.children.len() - i,
    {
        match &s.children[i] {
            SvgChildNode::SvgPathNode(p) => push_path(buf, p),
            SvgChildNode::SvgLineNode(l) => push_line(buf, l),
        }
        i += 1;
        proof {
            let part = s.children@.subrange(0, i as int);
            assert(part.drop_last() =~= s.children@.subrange(0, i - 1));
            assert(buf@ =~= opened + svg_children(part));
        }
    }
    assert(s.children@.subrange(0, s.children.len() as int) =~= s.children@);
    push_str(buf, "</svg>");
    assert(buf@ =~= old(buf)@ + markup(VirtualNode::Svg(*s)));
}

/// Appends the markup of `node` to `buf`.
fn push_markup(buf: &mut Vec<char>, node: &VirtualNode)
    ensures
        final(buf)@ == old(buf)@ + markup(*node),
    decreases *node,
{
    match node {
        VirtualNode::Span(s) => push_span(buf, s),
        VirtualNode::Anchor(a) => push_anchor(buf, a),
        VirtualNode::Img(img) => push_img(buf, img),
        VirtualNode::Symbol(symbol) => push_symbol(buf, symbol),
        VirtualNode::Svg(s) => push_svg(buf, s),
        VirtualNode::Path(p) => push_path(buf, p),
        VirtualNode::Line(l) => push_line(buf, l),
    }
}

/// Appends the markup of `node`, as an element `tag_name`, to `buf`.
#[verifier::loop_isolation(false)]
fn push_html_markup(buf: &mut Vec<char>, node: &HtmlDomNode, tag_name: &str)
    ensures
        final(buf)@ == old(buf)@ + html_markup(*node, tag_name@),
    decreases *node,
{
    push_opening(buf, tag_name, &node.classes, &node.style, &node.attributes);
    let ghost opened = buf@;
    let mut i: usize = 0;
    assert(buf@ =~= opened + html_children(*node, 0));
    // Add the markup of the children, also as markup
    while i < node.children.len()
        invariant
            i <= node.children.len(),
            buf@ == opened + html_children(*node, i as nat),
        decreases node.children.len() - i,
    {
        push_markup(buf, &node.children[i]);
        i += 1;
        assert(buf@ =~= opened + html_children(*node, i as nat));
    }
    push_closing(buf, tag_name);
    assert(buf@ =~= old(buf)@ + html_markup(*node, tag_name@));
}

/// The properties and values of a style.
pub open spec fn style_views(style: Seq<(String, String)>) -> Seq<(Seq<char>, Seq<char>)> {
    Seq::new(style.len(), |i: int| (style[i].0@, style[i].1@))
}

/// The style `given` with the color of `options`, if they set one, behind
/// it.
pub open spec fn colored_style(given: Option<CssStyle>, options: Option<Options>) -> Seq<
    (Seq<char>, Seq<char>),
> {
    let given = match given {
        Some(s) => style_views(s@),
        None => Seq::empty(),
    };
    match options {
        Some(o) => match o.color {
            Some(color) => given.push(("color"@, color@)),
            None => given,
        },
        None => given,
    }
}

/// The style `style` with the color of `options`, if they set one, behind
/// it.
pub fn with_color(style: Option<CssStyle>, options: Option<Options>) -> (colored: CssStyle)
    ensures
        style_views(colored@) == colored_style(style, options),
{
    let mut colored = match style {
        Some(s) => s,
        None => {
            let empty: CssStyle = Vec::new();
            assert(style_views(empty@) =~= Seq::empty());
            empty
        },
    };
    if let Some(opts) = options {
        if let Some(color) = opts.color {
            let ghost before = colored@;
            colored.push((String::from_str("color"), color));
            assert(style_views(colored@) =~= style_views(before).push(("color"@, color@)));
        }
    }
    colored
}

/// Makes an empty DOM node with the given classes and styles. With
/// options that set a color, the node takes that color.
pub fn init_node(classes: Option<Vec<String>>, options: Option<Options>, style: Option<CssStyle>) -> (node:
    HtmlDomNode)
    ensures
        node.classes@ == match classes {
            Some(c) => c@,
            None => Seq::empty(),
        },
        node.attributes@.len() == 0,
        node.children@.len() == 0,
        node.height == 0 && node.depth == 0 && node.max_font_size == 0,
        style_views(node.style@) == colored_style(style, options),
{
    let classes = match classes {
        Some(c) => c,
        None => Vec::new(),
    };
    HtmlDomNode {
        classes,
        attributes: Vec::new(),
        height: 0,
        depth: 0,
        max_font_size: 0,
        style: with_color(style, options),
        children: Vec::new(),
    }
}

/// Convert into an HTML node, given as markup.
pub fn to_node(node: &HtmlDomNode, tag_name: &str) -> (text: String)
    ensures
        text@ == html_markup(*node, tag_name@),
{
    to_markup(node, tag_name)
}

/// Convert into an HTML markup string.
pub fn to_markup(node: &HtmlDomNode, tag_name: &str) -> (text: String)
    ensures
        text@ == html_markup(*node, tag_name@),
{
    let mut buf: Vec<char> = Vec::new();
    push_html_markup(&mut buf, node, tag_name);
    assert(buf@ =~= html_markup(*node, tag_name@));
    string_from(&buf)
}

impl HtmlDomNode {
    /// Checks if the node has a certain class.
    pub fn has_class(&self, class_name: &str) -> (has: bool)
        ensures
            has == exists|i: int|
                0 <= i < self.classes@.len() && (#[trigger] self.classes@[i])@ == class_name@,
    {
        let mut i: usize = 0;
        while i < self.classes.len()
            invariant
                i <= self.classes.len(),
                forall|j: int| 0 <= j < i ==> (#[trigger] self.classes@[j])@ != class_name@,
            decreases self.classes.len() - i,
        {
            if self.classes[i].as_str().eq(class_name) {
                return true;
            }
            i += 1;
        }
        false
    }
}

impl VirtualNode {
    /// Convert into an HTML node, given as markup.
    pub fn to_node(&self) -> (text: String)
        ensures
            text@ == markup(*self),
    {
        self.to_markup()
    }

    /// Convert into an HTML markup string.
    pub fn to_markup(&self) -> (text: String)
        ensures
            text@ == markup(*self),
    {
        let mut buf: Vec<char> = Vec::new();
        push_markup(&mut buf, self);
        assert(buf@ =~= markup(*self));
        string_from(&buf)
    }
}

impl Span {
    /// Sets an arbitrary attribute on the span.
    pub fn set_attribute(&mut self, attribute: String, value: String)
        ensures
            final(self).attributes@ == old(self).attributes@.push((attribute, value)),
            final(self).children == old(self).children,
            final(self).classes == old(self).classes,
            final(self).style == old(self).style,
            final(self).height == old(self).height,
            final(self).depth == old(self).depth,
            final(self).width == old(self).width,
            final(self).max_font_size == old(self).max_font_size,
    {
        self.attributes.push((attribute, value));
    }
}

impl Anchor {
    /// Sets an attribute for the anchor.
    pub fn set_attribute(&mut self, attribute: String, value: String)
        ensures
            final(self).attributes@ == old(self).attributes@.push((attribute, value)),
            final(self).children == old(self).children,
            final(self).classes == old(self).classes,
            final(self).style == old(self).style,
            final(self).height == old(self).height,
            final(self).depth == old(self).depth,
            final(self).max_font_size == old(self).max_font_size,
    {
        self.attributes.push((attribute, value));
    }
}

} // verus!
