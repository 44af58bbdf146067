//! Parsing goes on: no operation of the parser raises the measure of its
//! state, and every atom lowers it. So the tests that the looping operations
//! make before they go round are always met.

use vstd::prelude::*;
use crate::functions::{FunctionKind, FunctionSpec};
use crate::grammar::{
    MAX_NESTING, Parsed, ParserView, lemma_atoms_head_measure, lemma_consume_spaces_measure,
    lemma_fetch_measure, lemma_function_head_measure, lemma_handle_function,
    lemma_hash_is_not_eof, lemma_parse_arguments, lemma_parse_atom, lemma_parse_atoms,
    lemma_parse_braced, lemma_parse_delimiter_measure, lemma_parse_expression,
    lemma_parse_function, lemma_parse_group, lemma_parse_left_right, lemma_parse_plain,
    lemma_parse_script, lemma_parse_scripts, lemma_pending_bounds, lemma_scripts_head_measure,
    lemma_weight_of_commands,
};
use crate::gullet::{
    Measure, lemma_consume_arg_pending, lemma_pop_decreases, lemma_pop_pending,
    lemma_scan_argument_pending, lemma_total_weight_bounds, weight,
};
use crate::lexer::eof_text;
use crate::parse_node::NodeView;
use crate::parser::Mode;
use crate::token::TokenView;

verus! {

/// The operation that led from `s` to `r` left the state well formed and,
/// unless it failed, did not raise the measure.
pub open spec fn advances<T>(r: Parsed<T>, s: ParserView) -> bool {
    &&& r.state.wf()
    &&& r.result is Ok ==> r.state.measure().within(s.measure())
}

/// The same, and where it read something, it lowered the measure.
pub open spec fn progresses<T>(r: Parsed<Option<T>>, s: ParserView) -> bool {
    &&& advances(r, s)
    &&& (r.result matches Ok(found) && found is Some) ==> r.state.measure().below(s.measure())
}

pub proof fn lemma_expect_advances(s: ParserView, text: Seq<char>, consume: bool)
    requires
        s.wf(),
    ensures
        advances(s.expect(text, consume), s),
{
    lemma_fetch_measure(s);
    lemma_pending_bounds(s.fetch().state);
}

pub proof fn lemma_parse_symbol_progresses(s: ParserView)
    requires
        s.wf(),
    ensures
        progresses(s.parse_symbol(), s),
{
    reveal(ParserView::parse_symbol);
    lemma_fetch_measure(s);
    lemma_pending_bounds(s.fetch().state);
    match s.fetch().result {
        Ok(token) => {
            lemma_weight_of_commands(token);
        },
        Err(e) => {},
    }
}

pub proof fn lemma_read_parameters_advances(s: ParserView, count: nat)
    requires
        s.wf(),
    ensures
        advances(s.read_parameters(count), s),
    decreases s.gullet.remaining(),
{
    reveal(ParserView::read_parameters);
    lemma_pop_decreases(s.gullet);
    lemma_pop_pending(s.gullet);
    lemma_hash_is_not_eof();
    let (next, looked) = s.gullet.future();
    if next.text != "{"@ {
        let (token, popped) = s.gullet.pop();
        lemma_pop_decreases(popped);
        lemma_pop_pending(popped);
        if token.text == "#"@ {
            let (number, after) = popped.pop();
            if crate::gullet::argument_number(number.text) == Some(count + 1) {
                lemma_read_parameters_advances(s.with_gullet(after), count + 1);
            }
        }
    }
}

pub proof fn lemma_define_macro_advances(s: ParserView, global: bool)
    requires
        s.wf(),
    ensures
        advances(s.define_macro(global), s),
{
    reveal(ParserView::define_macro);
    lemma_pop_decreases(s.gullet);
    lemma_pop_pending(s.gullet);
    let (name, popped) = s.gullet.pop();
    lemma_read_parameters_advances(s.with_gullet(popped), 0);
    let parameters = s.with_gullet(popped).read_parameters(0);
    lemma_consume_arg_pending(parameters.state.gullet, None);
    let body = parameters.state.gullet.consume_arg(None);
    match body.result {
        Ok(arg) => {
            lemma_total_weight_bounds(arg.tokens);
        },
        Err(e) => {},
    }
}

pub proof fn lemma_define_tag_advances(s: ParserView, token: TokenView)
    requires
        s.wf(),
    ensures
        advances(s.define_tag(token), s),
{
    reveal(ParserView::define_tag);
    lemma_consume_arg_pending(s.gullet, None);
    let body = s.gullet.consume_arg(None);
    match body.result {
        Ok(arg) => {
            lemma_total_weight_bounds(arg.tokens);
        },
        Err(e) => {},
    }
}

pub proof fn lemma_handle_simple_advances(s: ParserView, f: FunctionSpec, token: TokenView)
    requires
        s.wf(),
    ensures
        advances(s.handle_simple(f, token), s),
{
    lemma_define_macro_advances(s, token.text == "\\gdef"@);
    lemma_define_tag_advances(s, token);
    lemma_parse_delimiter_measure(s, token);
}

/// Parsing arguments does not raise the measure.
pub proof fn lemma_arguments_advance(s: ParserView, limit: Measure, count: nat, acc: Seq<NodeView>)
    requires
        s.wf(),
        s.measure().within(limit),
        0 <= limit.fuel,
        0 <= limit.pending,
    ensures
        advances(s.parse_arguments(limit, count, acc), s),
    decreases limit.fuel, limit.pending, 9int, count,
{
    lemma_parse_arguments(s, limit, count, acc);
    if count > 0 && s.nesting < MAX_NESTING {
        lemma_scan_argument_pending(s.gullet, false);
        let scanned = s.gullet.scan_argument(false);
        match scanned.result {
            Ok(spanned) => {
                let opened = s.argument_opened(scanned.state);
                lemma_expression_advances(opened, limit, false, Some(eof_text()));
                let inner = opened.parse_expression(limit, false, Some(eof_text()));
                if inner.result is Ok {
                    lemma_expect_advances(inner.state, eof_text(), true);
                }
                let arg = s.finish_argument(spanned, inner);
                match arg.result {
                    Ok(node) => {
                        lemma_arguments_advance(
                            arg.state,
                            limit,
                            (count - 1) as nat,
                            acc.push(node),
                        );
                    },
                    Err(e) => {},
                }
            },
            Err(e) => {},
        }
    }
}

/// Parsing delimited content lowers the measure.
pub proof fn lemma_left_right_advances(s: ParserView, limit: Measure, command: TokenView)
    requires
        s.wf(),
        s.measure().within(limit),
        0 <= limit.fuel,
        0 <= limit.pending,
    ensures
        advances(s.parse_left_right(limit, command), s),
    decreases limit.fuel, limit.pending, 2int, 0nat,
{
    lemma_parse_left_right(s, limit, command);
    lemma_parse_delimiter_measure(s, command);
    let left = s.parse_delimiter(command);
    if left.result is Ok && !(s.nesting >= MAX_NESTING || s.leftright_depth >= MAX_NESTING) {
        let opened = s.left_right_opened(left.state);
        lemma_expression_advances(opened, opened.measure(), false, None);
        let inner = opened.parse_expression(opened.measure(), false, None);
        if inner.result is Ok {
            let restored = ParserView {
                leftright_depth: s.leftright_depth,
                nesting: s.nesting,
                ..inner.state
            };
            lemma_expect_advances(restored, "\\right"@, true);
            let closed = restored.expect("\\right"@, true);
            lemma_parse_delimiter_measure(closed.state, command);
        }
    }
}

/// Handling a command does not raise the measure.
pub proof fn lemma_handle_function_advances(
    s: ParserView,
    limit: Measure,
    f: FunctionSpec,
    token: TokenView,
)
    requires
        s.wf(),
        s.measure().within(limit),
        0 <= limit.fuel,
        0 <= limit.pending,
    ensures
        advances(s.handle_function(limit, f, token), s),
    decreases limit.fuel, limit.pending, 10int, 0nat,
{
    lemma_handle_function(s, limit, f, token);
    match f.kind {
        FunctionKind::Left => {
            lemma_left_right_advances(s, limit, token);
        },
        FunctionKind::Genfrac => {
            lemma_arguments_advance(s, limit, f.num_args as nat, Seq::empty());
        },
        FunctionKind::Text => {
            lemma_arguments_advance(s.switch_mode(Mode::Text), limit, 1, Seq::empty());
        },
        _ => {
            lemma_handle_simple_advances(s, f, token);
        },
    }
}

/// Reading a command lowers the measure.
pub proof fn lemma_function_progresses(s: ParserView, limit: Measure)
    requires
        s.wf(),
        s.measure().within(limit),
        0 <= limit.fuel,
        0 <= limit.pending,
    ensures
        progresses(s.parse_function(limit), s),
    decreases limit.fuel, limit.pending, 3int, 0nat,
{
    lemma_parse_function(s, limit);
    lemma_function_head_measure(s);
    let head = s.function_head();
    match head.result {
        Ok(Some((f, token))) => {
            lemma_handle_function_advances(head.state, head.state.measure(), f, token);
        },
        _ => {},
    }
}

/// Reading a group in braces lowers the measure.
pub proof fn lemma_braced_advances(s: ParserView, limit: Measure, first: TokenView)
    requires
        s.wf(),
        s.measure().within(limit),
        0 <= limit.fuel,
        0 <= limit.pending,
        s.next_token == Some(first),
        weight(first) == 1,
    ensures
        s.parse_braced(limit, first).state.wf(),
        s.parse_braced(limit, first).result is Ok ==> s.parse_braced(
            limit,
            first,
        ).state.measure().below(s.measure()),
    decreases limit.fuel, limit.pending, 4int, 0nat,
{
    lemma_parse_braced(s, limit, first);
    lemma_pending_bounds(s);
    if s.nesting < MAX_NESTING {
        let group_end = if first.text == "{"@ {
            "}"@
        } else {
            "\\endgroup"@
        };
        let opened = s.opened();
        lemma_expression_advances(opened, opened.measure(), false, Some(group_end));
        let inner = opened.parse_expression(opened.measure(), false, Some(group_end));
        if inner.result is Ok {
            lemma_fetch_measure(inner.state);
            let last = inner.state.fetch();
            if last.result is Ok {
                lemma_expect_advances(last.state, group_end, true);
            }
        }
    }
}

/// Reading a command or a symbol lowers the measure.
pub proof fn lemma_plain_progresses(s: ParserView, limit: Measure, first: TokenView)
    requires
        s.wf(),
        s.measure().within(limit),
        0 <= limit.fuel,
        0 <= limit.pending,
    ensures
        progresses(s.parse_plain(limit, first), s),
    decreases limit.fuel, limit.pending, 4int, 0nat,
{
    lemma_parse_plain(s, limit, first);
    lemma_function_progresses(s, limit);
    let function = s.parse_function(limit);
    if function.result == Ok::<Option<NodeView>, crate::parse_error::ParseErrorView>(None) {
        lemma_parse_symbol_progresses(function.state);
    }
}

/// Reading a group, a command or a symbol lowers the measure.
pub proof fn lemma_group_progresses(s: ParserView, limit: Measure)
    requires
        s.wf(),
        s.measure().within(limit),
        0 <= limit.fuel,
        0 <= limit.pending,
    ensures
        progresses(s.parse_group(limit), s),
    decreases limit.fuel, limit.pending, 5int, 0nat,
{
    lemma_parse_group(s, limit);
    lemma_fetch_measure(s);
    let fetched = s.fetch();
    match fetched.result {
        Ok(first) => {
            lemma_weight_of_commands(first);
            if first.text == "{"@ || first.text == "\\begingroup"@ {
                lemma_braced_advances(fetched.state, limit, first);
            } else {
                lemma_plain_progresses(fetched.state, limit, first);
            }
        },
        Err(e) => {},
    }
}

/// Reading a script does not raise the measure.
pub proof fn lemma_script_advances(s: ParserView, limit: Measure, symbol: TokenView)
    requires
        s.wf(),
        s.measure().within(limit),
        0 <= limit.fuel,
        0 <= limit.pending,
    ensures
        advances(s.parse_script(limit, symbol), s),
    decreases limit.fuel, limit.pending, 6int, 0nat,
{
    lemma_parse_script(s, limit, symbol);
    lemma_consume_spaces_measure(s);
    let spaced = s.consume_spaces();
    if spaced.result is Ok {
        lemma_group_progresses(spaced.state, limit);
    }
}

/// Reading scripts does not raise the measure, and lowers it where a script
/// was read; the test that is made before the next script is read is always
/// met.
pub proof fn lemma_scripts_advance(
    s: ParserView,
    limit: Measure,
    base: Option<NodeView>,
    sup: Option<NodeView>,
    sub: Option<NodeView>,
)
    requires
        s.wf(),
        s.measure().within(limit),
        0 <= limit.fuel,
        0 <= limit.pending,
    ensures
        advances(s.parse_scripts(limit, base, sup, sub), s),
        (s.parse_scripts(limit, base, sup, sub).result matches Ok(found) && found is Some && base
            is None && sup is None && sub is None) ==> s.parse_scripts(
            limit,
            base,
            sup,
            sub,
        ).state.measure().below(s.measure()),
        ({
            let head = s.scripts_head(sup is Some, sub is Some);
            (head.result matches Ok(Some(lex)) && head.state.parse_script(
                head.state.measure(),
                lex,
            ).result is Ok) ==> ({
                let script = head.state.parse_script(
                    head.state.measure(),
                    head.result->Ok_0->0,
                );
                script.state.wf() && script.state.measure().below(limit)
            })
        }),
    decreases limit.fuel, limit.pending, 5int, 0nat,
{
    lemma_parse_scripts(s, limit, base, sup, sub);
    lemma_scripts_head_measure(s, sup is Some, sub is Some);
    let head = s.scripts_head(sup is Some, sub is Some);
    match head.result {
        Ok(Some(lex)) => {
            lemma_script_advances(head.state, head.state.measure(), lex);
            let script = head.state.parse_script(head.state.measure(), lex);
            match script.result {
                Ok(node) => {
                    lemma_pending_bounds(script.state);
                    lemma_scripts_advance(
                        script.state,
                        script.state.measure(),
                        base,
                        if lex.text == "^"@ {
                            Some(node)
                        } else {
                            sup
                        },
                        if lex.text == "^"@ {
                            sub
                        } else {
                            Some(node)
                        },
                    );
                },
                Err(e) => {},
            }
        },
        _ => {},
    }
}

/// Every atom lowers the measure.
pub proof fn lemma_atom_progresses(s: ParserView, limit: Measure)
    requires
        s.wf(),
        s.measure().within(limit),
        0 <= limit.fuel,
        0 <= limit.pending,
    ensures
        progresses(s.parse_atom(limit), s),
    decreases limit.fuel, limit.pending, 6int, 0nat,
{
    lemma_parse_atom(s, limit);
    lemma_group_progresses(s, limit);
    let base = s.parse_group(limit);
    match base.result {
        Ok(node) => {
            if s.mode != Mode::Text {
                lemma_scripts_advance(base.state, limit, node, None, None);
            }
        },
        Err(e) => {},
    }
}

/// Reading atoms does not raise the measure; the test that is made before
/// the next atom is read is always met.
pub proof fn lemma_atoms_advance(
    s: ParserView,
    limit: Measure,
    break_on_infix: bool,
    break_on_token_text: Option<Seq<char>>,
    body: Seq<NodeView>,
)
    requires
        s.wf(),
        s.measure().within(limit),
        0 <= limit.fuel,
        0 <= limit.pending,
    ensures
        advances(s.parse_atoms(limit, break_on_infix, break_on_token_text, body), s),
        ({
            let head = s.atoms_head(break_on_infix, break_on_token_text);
            let atom = head.state.parse_atom(limit);
            (head.result == Ok::<bool, crate::parse_error::ParseErrorView>(false) && (
            atom.result matches Ok(found) && found is Some)) ==> atom.state.wf()
                && atom.state.measure().below(limit)
        }),
    decreases limit.fuel, limit.pending, 7int, 0nat,
{
    lemma_parse_atoms(s, limit, break_on_infix, break_on_token_text, body);
    lemma_atoms_head_measure(s, break_on_infix, break_on_token_text);
    let head = s.atoms_head(break_on_infix, break_on_token_text);
    match head.result {
        Ok(stop) => {
            if !stop {
                lemma_atom_progresses(head.state, limit);
                let atom = head.state.parse_atom(limit);
                match atom.result {
                    Ok(Some(node)) => {
                        lemma_pending_bounds(atom.state);
                        lemma_atoms_advance(
                            atom.state,
                            atom.state.measure(),
                            break_on_infix,
                            break_on_token_text,
                            ParserView::extended(body, node),
                        );
                    },
                    _ => {},
                }
            }
        },
        Err(e) => {},
    }
}

/// Parsing an expression does not raise the measure.
pub proof fn lemma_expression_advances(
    s: ParserView,
    limit: Measure,
    break_on_infix: bool,
    break_on_token_text: Option<Seq<char>>,
)
    requires
        s.wf(),
        s.measure().within(limit),
        0 <= limit.fuel,
        0 <= limit.pending,
    ensures
        advances(s.parse_expression(limit, break_on_infix, break_on_token_text), s),
    decreases limit.fuel, limit.pending, 7int, 1nat,
{
    lemma_parse_expression(s, limit, break_on_infix, break_on_token_text);
    lemma_atoms_advance(s, limit, break_on_infix, break_on_token_text, Seq::empty());
}

} // verus!
