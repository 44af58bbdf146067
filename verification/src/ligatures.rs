//! The ligatures of text mode: `--`, `---`, double backticks and double
//! apostrophes each become one symbol.

use vstd::prelude::*;
use crate::grammar::{form_ligatures, joined_symbols, ligature_length, symbol_loc, symbol_text};
use crate::parse_node::{AnyParseNode, NodeView, TextOrdParseNode, node_view, node_views};
use crate::parser::Mode;
use crate::source_location::SourceLocation;

verus! {

/// The text that `node` shows, if it is a symbol.
pub fn symbol_text_of(node: &AnyParseNode) -> (text: Option<&String>)
    ensures
        match text {
            Some(t) => symbol_text(node@) == Some(t@),
            None => symbol_text(node@) is None,
        },
{
    proof {
        reveal(node_view);
    }
    match node {
        AnyParseNode::Atom(n) => Some(&n.text),
        AnyParseNode::MathOrd(n) => Some(&n.text),
        AnyParseNode::TextOrd(n) => Some(&n.text),
        AnyParseNode::Spacing(n) => Some(&n.text),
        _ => None,
    }
}

/// The place of `node`, if it is a symbol.
pub fn symbol_loc_of(node: &AnyParseNode) -> (loc: Option<SourceLocation>)
    ensures
        loc == symbol_loc(node@),
{
    proof {
        reveal(node_view);
    }
    match node {
        AnyParseNode::Atom(n) => n.loc,
        AnyParseNode::MathOrd(n) => n.loc,
        AnyParseNode::TextOrd(n) => n.loc,
        AnyParseNode::Spacing(n) => n.loc,
        _ => None,
    }
}

/// Whether `node` is a symbol that shows `text`.
fn shows(node: &AnyParseNode, text: &str) -> (b: bool)
    ensures
        b == (symbol_text(node@) == Some(text@)),
{
    match symbol_text_of(node) {
        Some(t) => t.as_str().eq(text),
        None => false,
    }
}

/// `nodes` in reverse order.
pub fn reverse_nodes(nodes: Vec<AnyParseNode>) -> (out: Vec<AnyParseNode>)
    ensures
        out@ == nodes@.reverse(),
{
    let mut nodes = nodes;
    let ghost all = nodes@;
    let mut out: Vec<AnyParseNode> = Vec::new();
    while nodes.len() > 0
        invariant
            nodes.len() <= all.len(),
            nodes@ == all.subrange(0, nodes.len() as int),
            out@ == all.subrange(nodes.len() as int, all.len() as int).reverse(),
        decreases nodes.len(),
    {
        let node = nodes.pop().unwrap();
        out.push(node);
        assert(nodes@ =~= all.subrange(0, nodes.len() as int));
        assert(out@ =~= all.subrange(nodes.len() as int, all.len() as int).reverse());
    }
    assert(out@ =~= all.reverse());
    out
}

/// How many nodes at the end of `reversed`, which is the front of the list
/// in reading order, form one ligature.
fn ligature_at(reversed: &Vec<AnyParseNode>) -> (n: usize)
    ensures
        n == ligature_length(node_views(reversed@.reverse())),
        n == 0 || n == 2 || n == 3,
        n <= reversed.len(),
{
    let len = reversed.len();
    let ghost body = node_views(reversed@.reverse());
    if len < 2 {
        return 0;
    }
    assert(body[0] == reversed@[len - 1]@);
    assert(body[1] == reversed@[len - 2]@);
    let first = &reversed[len - 1];
    let second = &reversed[len - 2];
    if shows(first, "-") && shows(second, "-") {
        if len >= 3 {
            assert(body[2] == reversed@[len - 3]@);
            if shows(&reversed[len - 3], "-") {
                return 3;
            }
        }
        2
    } else if (shows(first, "'") || shows(first, "`")) && same_text(first, second) {
        2
    } else {
        0
    }
}

/// Whether two symbols show the same text.
fn same_text(a: &AnyParseNode, b: &AnyParseNode) -> (same: bool)
    requires
        symbol_text(a@) is Some,
    ensures
        same == (symbol_text(b@) == symbol_text(a@)),
{
    match (symbol_text_of(a), symbol_text_of(b)) {
        (Some(x), Some(y)) => x.as_str().eq(y.as_str()),
        _ => false,
    }
}

/// Forms the ligatures of text mode in `body`, from left to right.
pub fn ligatures(body: Vec<AnyParseNode>) -> (out: Vec<AnyParseNode>)
    ensures
        node_views(out@) == form_ligatures(node_views(body@)),
{
    let ghost target = form_ligatures(node_views(body@));
    let mut rest = reverse_nodes(body);
    let mut out: Vec<AnyParseNode> = Vec::new();
    reveal(form_ligatures);
    proof {
        assert(rest@.reverse() =~= body@);
        assert(node_views(out@) + target =~= target);
    }
    while rest.len() > 0
        invariant
            node_views(out@) + form_ligatures(node_views(rest@.reverse())) == target,
        decreases rest.len(),
    {
        reveal(form_ligatures);
        let ghost before_out = node_views(out@);
        let ghost body_now = node_views(rest@.reverse());
        let ghost before_rest = rest@;
        let n = ligature_at(&rest);
        if n >= 2 {
            let first = rest.pop().unwrap();
            let second = rest.pop().unwrap();
            assert(first@ == body_now[0] && second@ == body_now[1]);
            let mut text = String::new();
            let mut last_loc = symbol_loc_of(&second);
            match symbol_text_of(&first) {
                Some(t) => {
                    text.append(t.as_str());
                },
                None => {},
            }
            match symbol_text_of(&second) {
                Some(t) => {
                    text.append(t.as_str());
                },
                None => {},
            }
            proof {
                assert(joined_symbols(body_now, 0) =~= Seq::<char>::empty());
                assert(joined_symbols(body_now, 1) =~= symbol_text(body_now[0])->0);
                assert(text@ =~= joined_symbols(body_now, 2));
            }
            if n == 3 {
                let third = rest.pop().unwrap();
                assert(third@ == body_now[2]);
                last_loc = symbol_loc_of(&third);
                match symbol_text_of(&third) {
                    Some(t) => {
                        text.append(t.as_str());
                    },
                    None => {},
                }
                assert(text@ =~= joined_symbols(body_now, 3));
            }
            let first_loc = symbol_loc_of(&first);
            let node = AnyParseNode::TextOrd(
                TextOrdParseNode {
                    mode: Mode::Text,
                    loc: SourceLocation::range(first_loc.as_ref(), last_loc.as_ref()),
                    text,
                },
            );
            out.push(node);
            proof {
                reveal(node_view);
                assert(node_views(rest@.reverse()) =~= body_now.skip(n as int));
                assert(node_views(out@) =~= before_out + seq![node@]);
                assert(before_out + (seq![node@] + form_ligatures(body_now.skip(n as int)))
                    =~= (before_out + seq![node@]) + form_ligatures(body_now.skip(n as int)));
            }
        } else {
            let first = rest.pop().unwrap();
            out.push(first);
            proof {
                assert(first@ == body_now[0]);
                assert(node_views(rest@.reverse()) =~= body_now.skip(1));
                assert(node_views(out@) =~= before_out + seq![first@]);
                assert(before_out + (seq![body_now[0]] + form_ligatures(body_now.skip(1)))
                    =~= (before_out + seq![body_now[0]]) + form_ligatures(body_now.skip(1)));
            }
        }
    }
    proof {
        reveal(form_ligatures);
        assert(node_views(rest@.reverse()) =~= Seq::<NodeView>::empty());
        assert(node_views(out@) + Seq::<NodeView>::empty() =~= node_views(out@));
    }
    out
}

} // verus!
