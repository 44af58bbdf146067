//! Building blocks for DOM nodes.

use vstd::prelude::*;
use crate::dom_tree::{CssStyle, DomSpan, Span, VirtualNode, colored_style, style_views, with_color};
use crate::options::Options;

verus! {

/// The height of a node.
pub open spec fn height_of(node: VirtualNode) -> usize {
    match node {
        VirtualNode::Span(s) => s.height,
        VirtualNode::Anchor(a) => a.height,
        VirtualNode::Img(i) => i.height,
        VirtualNode::Symbol(s) => s.height,
        _ => 0,
    }
}

/// The depth of a node.
pub open spec fn depth_of(node: VirtualNode) -> usize {
    match node {
        VirtualNode::Span(s) => s.depth,
        VirtualNode::Anchor(a) => a.depth,
        VirtualNode::Img(i) => i.depth,
        VirtualNode::Symbol(s) => s.depth,
        _ => 0,
    }
}

/// The largest font size in a node.
pub open spec fn max_font_size_of(node: VirtualNode) -> usize {
    match node {
        VirtualNode::Span(s) => s.max_font_size,
        VirtualNode::Anchor(a) => a.max_font_size,
        VirtualNode::Img(i) => i.max_font_size,
        VirtualNode::Symbol(s) => s.max_font_size,
        _ => 0,
    }
}

/// The largest of the measures `measure` of `nodes`, or zero.
pub open spec fn largest(nodes: Seq<VirtualNode>, measure: spec_fn(VirtualNode) -> usize) -> usize
    decreases nodes.len(),
{
    if nodes.len() == 0 {
        0
    } else {
        let rest = largest(nodes.drop_last(), measure);
        if measure(nodes.last()) > rest {
            measure(nodes.last())
        } else {
            rest
        }
    }
}

fn height(node: &VirtualNode) -> (h: usize)
    ensures
        h == height_of(*node),
{
    match node {
        VirtualNode::Span(s) => s.height,
        VirtualNode::Anchor(a) => a.height,
        VirtualNode::Img(i) => i.height,
        VirtualNode::Symbol(s) => s.height,
        _ => 0,
    }
}

fn depth(node: &VirtualNode) -> (d: usize)
    ensures
        d == depth_of(*node),
{
    match node {
        VirtualNode::Span(s) => s.depth,
        VirtualNode::Anchor(a) => a.depth,
        VirtualNode::Img(i) => i.depth,
        VirtualNode::Symbol(s) => s.depth,
        _ => 0,
    }
}

fn max_font_size(node: &VirtualNode) -> (m: usize)
    ensures
        m == max_font_size_of(*node),
{
    match node {
        VirtualNode::Span(s) => s.max_font_size,
        VirtualNode::Anchor(a) => a.max_font_size,
        VirtualNode::Img(i) => i.max_font_size,
        VirtualNode::Symbol(s) => s.max_font_size,
        _ => 0,
    }
}

/// Makes a span with the given list of classes, list of children, and
/// options. The span is as high and as deep as its largest child, and
/// takes the color of the options.
pub fn make_span(
    classes: Option<Vec<String>>,
    children: Option<Vec<VirtualNode>>,
    options: Option<Options>,
    style: Option<CssStyle>,
) -> (span: DomSpan)
    ensures
        span.classes@ == match classes {
            Some(c) => c@,
            None => Seq::empty(),
        },
        span.children@ == match children {
            Some(c) => c@,
            None => Seq::empty(),
        },
        span.attributes@.len() == 0,
        span.width is None,
        span.height == largest(span.children@, |n: VirtualNode| height_of(n)),
        span.depth == largest(span.children@, |n: VirtualNode| depth_of(n)),
        span.max_font_size == largest(span.children@, |n: VirtualNode| max_font_size_of(n)),
        style_views(span.style@) == colored_style(style, options),
{
    let classes = match classes {
        Some(c) => c,
        None => Vec::new(),
    };
    let children = match children {
        Some(c) => c,
        None => Vec::new(),
    };
    let style = with_color(style, options);
    let mut h: usize = 0;
    let mut d: usize = 0;
    let mut m: usize = 0;
    let mut i: usize = 0;
    assert(children@.subrange(0, 0) =~= Seq::<VirtualNode>::empty());
    while i < children.len()
        invariant
            i <= children.len(),
            h == largest(children@.subrange(0, i as int), |n: VirtualNode| height_of(n)),
            d == largest(children@.subrange(0, i as int), |n: VirtualNode| depth_of(n)),
            m == largest(children@.subrange(0, i as int), |n: VirtualNode| max_font_size_of(n)),
        decreases children.len() - i,
    {
        let child = &children[i];
        if height(child) > h {
            h = height(child);
        }
        if depth(child) > d {
            d = depth(child);
        }
        if max_font_size(child) > m {
            m = max_font_size(child);
        }
        i += 1;
        assert(children@.subrange(0, i as int).drop_last() =~= children@.subrange(0, i - 1));
    }
    assert(children@.subrange(0, children.len() as int) =~= children@);
    Span {
        children,
        attributes: Vec::new(),
        classes,
        height: h,
        depth: d,
        width: None,
        max_font_size: m,
        style,
    }
}

} // verus!
