//! Calling a command on arguments that are parsed already, and rewriting
//! infix operators to such calls.

use vstd::prelude::*;
use crate::functions::{FunctionKind, lookup_function};
use crate::grammar::{
    call_function, fraction_size, handle_infix_nodes, has_bar_line, left_delimiter, next_infix,
    operand, right_delimiter,
};
use crate::lexer::Lexer;
use crate::parse_error::{ParseError, ParseErrorKind, ParseErrorView};
use crate::parse_node::{
    node_view, AnyParseNode, GenfracParseNode, NodeView, OrdGroupParseNode, lemma_group_view,
    lemma_node_views_subrange, node_views,
};
use crate::parser::Mode;
use crate::token::Token;

verus! {

/// What a call returned, as a mathematical value.
pub open spec fn node_outcome(r: Result<AnyParseNode, ParseError>) -> Result<
    NodeView,
    ParseErrorView,
> {
    match r {
        Ok(n) => Ok(n@),
        Err(e) => Err(e@),
    }
}

pub open spec fn nodes_outcome(r: Result<Vec<AnyParseNode>, ParseError>) -> Result<
    Seq<NodeView>,
    ParseErrorView,
> {
    match r {
        Ok(n) => Ok(node_views(n@)),
        Err(e) => Err(e@),
    }
}

/// The view of a node that may be missing.
pub open spec fn optional_node_view(node: Option<AnyParseNode>) -> Option<NodeView> {
    match node {
        Some(n) => Some(n@),
        None => None,
    }
}

pub open spec fn optional_node_outcome(r: Result<Option<AnyParseNode>, ParseError>) -> Result<
    Option<NodeView>,
    ParseErrorView,
> {
    match r {
        Ok(Some(n)) => Ok(Some(n@)),
        Ok(None) => Ok(None),
        Err(e) => Err(e@),
    }
}

/// The operand of an infix operator: `nodes` itself if it is one group, else
/// a new group around `nodes`.
pub fn make_operand(mode: Mode, nodes: Vec<AnyParseNode>) -> (node: AnyParseNode)
    ensures
        node@ == operand(mode, node_views(nodes@)),
{
    proof {
        reveal(node_view);
    }
    let mut nodes = nodes;
    let single = nodes.len() == 1 && match &nodes[0] {
        AnyParseNode::OrdGroup(_) => true,
        _ => false,
    };
    if single {
        nodes.pop().unwrap()
    } else {
        let group = OrdGroupParseNode { mode, loc: None, body: nodes, semisimple: None };
        proof {
            lemma_group_view(group);
        }
        AnyParseNode::OrdGroup(group)
    }
}

fn left_delimiter_of(name: &str) -> (delim: Option<String>)
    ensures
        crate::parse_node::text_view(delim) == left_delimiter(name@),
{
    if name.eq("\\binom") || name.eq("\\dbinom") || name.eq("\\tbinom") {
        Some(String::from_str("("))
    } else if name.eq("\\\\bracefrac") {
        Some(String::from_str("\\{"))
    } else if name.eq("\\\\brackfrac") {
        Some(String::from_str("["))
    } else {
        None
    }
}

fn right_delimiter_of(name: &str) -> (delim: Option<String>)
    ensures
        crate::parse_node::text_view(delim) == right_delimiter(name@),
{
    if name.eq("\\binom") || name.eq("\\dbinom") || name.eq("\\tbinom") {
        Some(String::from_str(")"))
    } else if name.eq("\\\\bracefrac") {
        Some(String::from_str("\\}"))
    } else if name.eq("\\\\brackfrac") {
        Some(String::from_str("]"))
    } else {
        None
    }
}

fn fraction_size_of(name: &str) -> (size: String)
    ensures
        size@ == fraction_size(name@),
{
    if name.eq("\\dfrac") || name.eq("\\dbinom") {
        String::from_str("display")
    } else if name.eq("\\tfrac") || name.eq("\\tbinom") {
        String::from_str("text")
    } else {
        String::from_str("auto")
    }
}

/// Calls the command `name` on `args`. Only the fractions can be called this
/// way: with numerator and denominator, or, for the fraction with a rule of
/// given thickness, with the infix node that gives the thickness between
/// them.
pub fn call(
    mode: Mode,
    name: &str,
    args: Vec<AnyParseNode>,
    token: Option<&Token>,
    source: &Lexer,
) -> (r: Result<AnyParseNode, ParseError>)
    ensures
        node_outcome(r) == call_function(
            mode,
            name@,
            node_views(args@),
            match token {
                Some(t) => Some(t@),
                None => None,
            },
            source@,
        ),
{
    proof {
        reveal(node_view);
    }
    reveal(call_function);
    let mut args = args;
    let callable = match lookup_function(name) {
        Some(f) => match f.kind {
            FunctionKind::Genfrac => args.len() == f.num_args,
            _ => false,
        },
        None => false,
    };
    if !callable {
        let message = String::from_str("No function handler for ").concat(name);
        return Err(
            ParseError::new(ParseErrorKind::NoFunctionHandler, message.as_str(), token, source),
        );
    }
    let ghost views = node_views(args@);
    if args.len() == 3 {
        let denom = args.pop().unwrap();
        let middle = args.pop().unwrap();
        let numer = args.pop().unwrap();
        assert(denom@ == views[2] && middle@ == views[1] && numer@ == views[0]);
        match middle {
            AnyParseNode::Infix(infix) => match infix.size {
                Some(thickness) => Ok(
                    AnyParseNode::Genfrac(
                        GenfracParseNode {
                            mode,
                            loc: None,
                            continued: false,
                            numer: Box::new(numer),
                            denom: Box::new(denom),
                            has_bar_line: thickness.number > 0,
                            left_delim: None,
                            right_delim: None,
                            size: String::from_str("auto"),
                            bar_size: Some(thickness),
                        },
                    ),
                ),
                None => Err(
                    ParseError::new(
                        ParseErrorKind::MissingArgument,
                        "Expected a rule thickness",
                        token,
                        source,
                    ),
                ),
            },
            _ => Err(
                ParseError::new(
                    ParseErrorKind::MissingArgument,
                    "Expected a rule thickness",
                    token,
                    source,
                ),
            ),
        }
    } else {
        let denom = args.pop().unwrap();
        let numer = args.pop().unwrap();
        assert(denom@ == views[1] && numer@ == views[0]);
        Ok(
            AnyParseNode::Genfrac(
                GenfracParseNode {
                    mode,
                    loc: None,
                    continued: false,
                    numer: Box::new(numer),
                    denom: Box::new(denom),
                    has_bar_line: name.eq("\\frac") || name.eq("\\dfrac") || name.eq("\\tfrac"),
                    left_delim: left_delimiter_of(name),
                    right_delim: right_delimiter_of(name),
                    size: fraction_size_of(name),
                    bar_size: None,
                },
            ),
        )
    }
}

/// The position of the first infix node in `body` from `from` on, or the
/// length of `body`.
fn find_infix(body: &Vec<AnyParseNode>, from: usize) -> (at: usize)
    requires
        from <= body.len(),
    ensures
        at == next_infix(node_views(body@), from as int),
        from <= at <= body.len(),
        at < body.len() ==> body@[at as int] is Infix,
{
    proof {
        reveal(node_view);
    }
    let mut i: usize = from;
    while i < body.len()
        invariant
            from <= i <= body.len(),
            next_infix(node_views(body@), i as int) == next_infix(node_views(body@), from as int),
        decreases body.len() - i,
    {
        proof {
            reveal(node_view);
        }
        match &body[i] {
            AnyParseNode::Infix(_) => {
                return i;
            },
            _ => {},
        }
        i += 1;
    }
    i
}

/// Rewrites infix operators such as `\over` with corresponding commands such
/// as `\frac`.
///
/// There can only be one infix operator per group. If there's more than one
/// then the expression is ambiguous. This can be resolved by adding {}.
pub fn rewrite_infix(mode: Mode, body: Vec<AnyParseNode>, source: &Lexer) -> (r: Result<
    Vec<AnyParseNode>,
    ParseError,
>)
    ensures
        nodes_outcome(r) == handle_infix_nodes(mode, node_views(body@), source@),
{
    proof {
        reveal(node_view);
    }
    reveal(handle_infix_nodes);
    let mut body = body;
    let ghost views = node_views(body@);
    let first = find_infix(&body, 0);
    if first >= body.len() {
        return Ok(body);
    }
    let second = find_infix(&body, first + 1);
    if second < body.len() {
        return match &body[second] {
            AnyParseNode::Infix(infix) => Err(
                ParseError::new(
                    ParseErrorKind::MultipleInfixOperators,
                    "only one infix operator per group",
                    infix.token.as_ref(),
                    source,
                ),
            ),
            _ => Ok(body),
        };
    }
    let empty_name = match &body[first] {
        AnyParseNode::Infix(infix) => infix.replace_with.as_str().eq(""),
        _ => true,
    };
    proof {
        reveal_strlit("");
        assert(""@.len() == 0);
        assert(views[first as int]->Infix_replace_with.len() == 0 ==> views[first as int]->Infix_replace_with =~= ""@);
    }
    if empty_name {
        return Ok(body);
    }
    let ghost all = body@;
    let denom_body = body.split_off(first + 1);
    let middle = body.pop().unwrap();
    proof {
        lemma_node_views_subrange(all, 0, first as int);
        lemma_node_views_subrange(all, first + 1, all.len() as int);
        assert(body@ =~= all.subrange(0, first as int));
        assert(middle == all[first as int]);
    }
    let numer = make_operand(mode, body);
    let denom = make_operand(mode, denom_body);
    let name = match &middle {
        AnyParseNode::Infix(infix) => infix.replace_with.clone(),
        _ => String::new(),
    };
    let mut args: Vec<AnyParseNode> = Vec::new();
    args.push(numer);
    if name.as_str().eq("\\\\abovefrac") {
        args.push(middle);
        args.push(denom);
        assert(node_views(args@) =~= seq![numer@, middle@, denom@]);
    } else {
        args.push(denom);
        assert(node_views(args@) =~= seq![numer@, denom@]);
    }
    match call(mode, name.as_str(), args, None, source) {
        Ok(node) => {
            let mut out: Vec<AnyParseNode> = Vec::new();
            out.push(node);
            assert(node_views(out@) =~= seq![node@]);
            Ok(out)
        },
        Err(e) => Err(e),
    }
}

} // verus!
