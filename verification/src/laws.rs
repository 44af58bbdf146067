//! Laws of the expander and of the rewriting of infix operators: what holds
//! of every state and every input.

use vstd::prelude::*;
use crate::grammar::{call_function, handle_infix_nodes, next_infix, operand};
use crate::gullet::{
    ArgumentView, GulletView, balanced, balanced_from, is_single_group, lemma_pop_decreases,
    lemma_space_is_not_eof,
};
use crate::lexer::{LexerView, eof_text, lemma_next_lexeme_bounds};
use crate::namespace::{MacroDefinitionView, NamespaceView};
use crate::parse_error::{ParseErrorKind, ParseErrorView};
use crate::parse_node::NodeView;
use crate::parser::Mode;
use crate::token::TokenView;

verus! {

/// No token of `tokens` is an end marker.
pub open spec fn no_end_marker(tokens: Seq<TokenView>) -> bool {
    forall|i: int| 0 <= i < tokens.len() ==> (#[trigger] tokens[i]).text != eof_text()
}

/// Taking a token off a state that has tokens to come yields the first of
/// them and leaves the others.
pub proof fn lemma_pop_upcoming(s: GulletView)
    requires
        s.wf(),
        s.upcoming().len() > 0,
    ensures
        s.pop().0 == s.upcoming()[0],
        s.pop().1.upcoming() == s.upcoming().skip(1),
        s.future().0 == s.upcoming()[0],
        s.future().1.upcoming() == s.upcoming(),
        s.pop().1.wf(),
        s.future().1.wf(),
{
    lemma_pop_decreases(s);
    lemma_next_lexeme_bounds(s.lexer.input, s.lexer.pos);
    if s.stack.len() > 0 {
        assert(s.stack.drop_last().reverse() + s.lexer.rest() =~= (s.stack.reverse()
            + s.lexer.rest()).skip(1));
    } else {
        let token = s.lexer.next_token();
        assert(s.stack.reverse() =~= Seq::<TokenView>::empty());
        assert(s.upcoming() =~= s.lexer.rest());
        assert(seq![token].drop_last() =~= Seq::<TokenView>::empty());
        assert(s.pop().1.stack.reverse() =~= Seq::<TokenView>::empty());
        assert(s.pop().1.upcoming() =~= s.lexer.advance().rest());
        assert(s.lexer.advance().rest() =~= s.lexer.rest().skip(1));
        assert(seq![token].reverse() =~= seq![token]);
        assert(s.future().1.upcoming() =~= seq![token] + s.lexer.advance().rest());
    }
}

/// Inside a group: with `depth` braces open and the rest of a balanced body
/// to come, reading goes on to the brace that closes the group.
proof fn lemma_scan_group(
    s: GulletView,
    acc: Seq<TokenView>,
    depth: nat,
    rest: Seq<TokenView>,
    close: TokenView,
    tail: Seq<TokenView>,
)
    requires
        s.wf(),
        depth >= 1,
        s.upcoming() == rest + seq![close] + tail,
        balanced_from(rest, depth - 1),
        no_end_marker(rest),
        close.text == "}"@,
    ensures
        ({
            let r = s.scan_argument_tokens(Seq::empty(), acc, depth, 0);
            &&& r.result == Ok::<(Seq<TokenView>, TokenView), ParseErrorView>(
                (acc + rest + seq![close], close),
            )
            &&& r.state.upcoming() == tail
            &&& r.state.wf()
        }),
    decreases rest.len(),
{
    reveal(GulletView::scan_argument_tokens);
    lemma_space_is_not_eof();
    lemma_pop_upcoming(s);
    let (token, state) = s.pop();
    if rest.len() == 0 {
        assert(s.upcoming()[0] == close);
        assert((rest + seq![close] + tail).skip(1) =~= tail);
        assert(acc.push(close) =~= acc + rest + seq![close]);
    } else {
        assert(s.upcoming()[0] == rest[0]);
        assert((rest + seq![close] + tail).skip(1) =~= rest.skip(1) + seq![close] + tail);
        let depth1 = if token.text == "{"@ {
            depth + 1
        } else if token.text == "}"@ {
            (depth - 1) as nat
        } else {
            depth
        };
        assert(no_end_marker(rest.skip(1))) by {
            assert forall|i: int| 0 <= i < rest.skip(1).len() implies (#[trigger] rest.skip(
                1,
            )[i]).text != eof_text() by {
                assert(rest.skip(1)[i] == rest[i + 1]);
            }
        }
        lemma_scan_group(state, acc.push(token), depth1, rest.skip(1), close, tail);
        assert(acc.push(token) + rest.skip(1) + seq![close] =~= acc + rest + seq![close]);
    }
}

/// Balanced braces come back as they were: where a group in braces is next
/// to be read, `{`, a balanced body without end markers, `}`, reading one
/// argument yields exactly the body, the braces stripped once, and leaves
/// what followed the group. (An argument is handed out reversed.)
pub proof fn lemma_balanced_group_round_trip(
    s: GulletView,
    open: TokenView,
    body: Seq<TokenView>,
    close: TokenView,
    tail: Seq<TokenView>,
)
    requires
        s.wf(),
        s.upcoming() == seq![open] + body + seq![close] + tail,
        open.text == "{"@,
        close.text == "}"@,
        balanced(body),
        no_end_marker(body),
    ensures
        s.consume_arg(None).result == Ok::<ArgumentView, ParseErrorView>(
            ArgumentView { start: open, tokens: body.reverse(), end: close },
        ),
        s.consume_arg(None).state.upcoming() == tail,
{
    reveal(GulletView::consume_arg);
    reveal(GulletView::scan_argument_tokens);
    lemma_space_is_not_eof();
    lemma_pop_upcoming(s);
    let looked = s.future().1;
    lemma_pop_upcoming(looked);
    let (token, state) = looked.pop();
    assert(token == open);
    assert((seq![open] + body + seq![close] + tail).skip(1) =~= body + seq![close] + tail);
    let first = Seq::<TokenView>::empty().push(open);
    lemma_scan_group(state, first, 1, body, close, tail);
    let read = first + body + seq![close];
    assert(read.subrange(1, read.len() - 1) =~= body);
    assert(read[0] == open);
    assert(read.last() == close);
    assert(is_single_group(read));
}

/// Expanding a token that is no macro changes nothing: the step reports
/// that nothing was expanded, counts no expansion, and the token is still
/// the next one to be read, with the same tokens behind it.
pub proof fn lemma_expanding_a_non_macro_changes_nothing(s: GulletView)
    requires
        s.wf(),
        !s.macros.has(s.pop().0.text),
    ensures
        s.expand_once(false).result == Ok::<Option<nat>, ParseErrorView>(None),
        s.expand_once(false).state.expansion_count == s.expansion_count,
        s.expand_once(false).state.pop() == s.pop(),
        s.upcoming().len() > 0 ==> s.expand_once(false).state.upcoming() == s.upcoming(),
{
    reveal(GulletView::expand_once);
    lemma_pop_decreases(s);
    let (top, state) = s.pop();
    assert(state.macros == s.macros);
    assert(state.push(top).stack.drop_last() =~= state.stack);
    if s.upcoming().len() > 0 {
        lemma_pop_upcoming(s);
        assert(state.stack.push(top).reverse() =~= seq![top] + state.stack.reverse());
        assert(state.push(top).upcoming() =~= seq![top] + state.upcoming());
        assert(seq![top] + s.upcoming().skip(1) =~= s.upcoming());
    }
}

/// A macro that stands for itself: it takes no arguments, and its
/// expansion is one token that names the macro again.
pub open spec fn stands_for_itself(s: GulletView, name: Seq<char>) -> bool {
    &&& s.get_expansion(name) matches Some(e)
    &&& e.num_args == 0
    &&& e.delimiters is None
    &&& e.tokens.len() == 1
    &&& e.tokens[0].text == name
    &&& !e.tokens[0].is_noexpand()
}

/// The loop guard: where the next token names a macro that stands for
/// itself, expansion does not go on for ever, but ends with the error that
/// there are too many expansions.
pub proof fn lemma_self_reference_hits_the_limit(s: GulletView)
    requires
        s.wf(),
        stands_for_itself(s, s.pop().0.text),
        !s.pop().0.is_noexpand(),
    ensures
        s.expand_next_token().result matches Err(e) && e.kind
            == ParseErrorKind::TooManyExpansions,
    decreases s.fuel(),
{
    reveal(GulletView::expand_next_token);
    reveal(GulletView::expand_once);
    reveal(GulletView::consume_args);
    reveal(GulletView::collect_arguments);
    lemma_pop_decreases(s);
    let (top, state) = s.pop();
    let name = top.text;
    let expansion = state.get_expansion(name)->0;
    assert(state.get_expansion(name) == s.get_expansion(name));
    let counted = state.count_expansion(1);
    if counted.result is Ok {
        let read = counted.state.consume_args(0, expansion.delimiters);
        assert(read.state == counted.state);
        assert(read.result is Ok);
        let next = counted.state.push_all(expansion.tokens.reverse().reverse());
        assert(s.expand_once(false).state == next);
        assert(expansion.tokens.reverse().reverse() =~= expansion.tokens);
        assert(next.stack.last() == expansion.tokens[0]);
        assert(next.pop().0 == expansion.tokens[0]);
        assert(next.get_expansion(name) == s.get_expansion(name));
        lemma_self_reference_hits_the_limit(next);
    }
}

/// Defining `entries` one after the other, each in the innermost open
/// group.
pub open spec fn define_all(
    ns: NamespaceView,
    entries: Seq<(Seq<char>, MacroDefinitionView)>,
) -> NamespaceView
    decreases entries.len(),
{
    if entries.len() == 0 {
        ns
    } else {
        define_all(ns, entries.drop_last()).insert(entries.last().0, entries.last().1)
    }
}

/// What is defined in a group is seen in the group.
pub proof fn lemma_definition_is_seen_in_its_group(
    ns: NamespaceView,
    name: Seq<char>,
    definition: MacroDefinitionView,
)
    ensures
        ns.begin_group().insert(name, definition).get(name) == Some(definition),
        ns.insert(name, definition).get(name) == Some(definition),
{
    if ns.overlays.len() > 0 {
        let after = ns.insert(name, definition);
        assert(after.overlays.last().contains_key(name));
    }
    let grouped = ns.begin_group().insert(name, definition);
    assert(grouped.overlays.last().contains_key(name));
}

proof fn lemma_define_all_keeps_lower_layers(
    ns: NamespaceView,
    entries: Seq<(Seq<char>, MacroDefinitionView)>,
)
    requires
        ns.overlays.len() > 0,
    ensures
        define_all(ns, entries).base == ns.base,
        define_all(ns, entries).overlays.len() == ns.overlays.len(),
        define_all(ns, entries).overlays.drop_last() == ns.overlays.drop_last(),
    decreases entries.len(),
{
    if entries.len() > 0 {
        lemma_define_all_keeps_lower_layers(ns, entries.drop_last());
        let before = define_all(ns, entries.drop_last());
        assert(define_all(ns, entries).overlays.drop_last() =~= before.overlays.drop_last());
    }
}

/// Scope isolation: whatever is defined between the opening of a group and
/// its end is forgotten at the end. The namespace is then what it was
/// before the group, so every name is defined or undefined as before and
/// stands for what it stood for.
pub proof fn lemma_group_end_restores_namespace(
    ns: NamespaceView,
    entries: Seq<(Seq<char>, MacroDefinitionView)>,
    name: Seq<char>,
)
    ensures
        define_all(ns.begin_group(), entries).end_group() == ns,
        define_all(ns.begin_group(), entries).end_group().has(name) == ns.has(name),
        define_all(ns.begin_group(), entries).end_group().get(name) == ns.get(name),
{
    lemma_define_all_keeps_lower_layers(ns.begin_group(), entries);
    assert(ns.begin_group().overlays.drop_last() =~= ns.overlays);
}

/// The number of infix nodes in `body`.
pub open spec fn count_infix(body: Seq<NodeView>) -> nat
    decreases body.len(),
{
    if body.len() == 0 {
        0
    } else {
        count_infix(body.drop_last()) + if body.last() is Infix {
            1nat
        } else {
            0nat
        }
    }
}

proof fn lemma_next_infix(body: Seq<NodeView>, from: int)
    requires
        0 <= from <= body.len(),
    ensures
        from <= next_infix(body, from) <= body.len(),
        next_infix(body, from) < body.len() ==> body[next_infix(body, from)] is Infix,
        forall|i: int| from <= i < next_infix(body, from) ==> !(#[trigger] body[i] is Infix),
    decreases body.len() - from,
{
    if from < body.len() && !(body[from] is Infix) {
        lemma_next_infix(body, from + 1);
    }
}

proof fn lemma_count_without_infix(body: Seq<NodeView>)
    requires
        forall|i: int| 0 <= i < body.len() ==> !(#[trigger] body[i] is Infix),
    ensures
        count_infix(body) == 0,
    decreases body.len(),
{
    if body.len() > 0 {
        lemma_count_without_infix(body.drop_last());
    }
}

proof fn lemma_count_infix_split(body: Seq<NodeView>, at: int)
    requires
        0 <= at <= body.len(),
    ensures
        count_infix(body) == count_infix(body.subrange(0, at)) + count_infix(
            body.subrange(at, body.len() as int),
        ),
    decreases body.len(),
{
    if at == body.len() {
        assert(body.subrange(0, at) =~= body);
        assert(body.subrange(at, body.len() as int) =~= Seq::<NodeView>::empty());
    } else {
        lemma_count_infix_split(body.drop_last(), at);
        assert(body.drop_last().subrange(0, at) =~= body.subrange(0, at));
        assert(body.subrange(at, body.len() as int).drop_last() =~= body.drop_last().subrange(
            at,
            body.len() - 1,
        ));
    }
}

proof fn lemma_count_from(body: Seq<NodeView>, from: int)
    requires
        0 <= from <= body.len(),
    ensures
        next_infix(body, from) >= body.len() <==> count_infix(
            body.subrange(from, body.len() as int),
        ) == 0,
    decreases body.len() - from,
{
    lemma_next_infix(body, from);
    let rest = body.subrange(from, body.len() as int);
    if next_infix(body, from) >= body.len() {
        assert forall|i: int| 0 <= i < rest.len() implies !(#[trigger] rest[i] is Infix) by {
            assert(rest[i] == body[from + i]);
        }
        lemma_count_without_infix(rest);
    } else {
        let at = next_infix(body, from);
        lemma_count_infix_split(rest, at - from + 1);
        let head = rest.subrange(0, at - from + 1);
        assert(head.last() == body[at]);
        assert(count_infix(head) >= 1);
    }
}

/// One infix operator per group, and no more: a list with two or more infix
/// operators is refused with the error of that name.
pub proof fn lemma_two_infix_operators_are_refused(
    mode: Mode,
    body: Seq<NodeView>,
    source: LexerView,
)
    requires
        count_infix(body) >= 2,
    ensures
        handle_infix_nodes(mode, body, source) matches Err(e) && e.kind
            == ParseErrorKind::MultipleInfixOperators,
{
    reveal(handle_infix_nodes);
    lemma_next_infix(body, 0);
    lemma_count_from(body, 0);
    assert(body.subrange(0, body.len() as int) =~= body);
    let first = next_infix(body, 0);
    lemma_count_infix_split(body, first + 1);
    let head = body.subrange(0, first + 1);
    lemma_count_infix_split(head, first);
    assert(head.subrange(0, first) =~= body.subrange(0, first));
    assert forall|i: int| 0 <= i < first implies !(#[trigger] body.subrange(
        0,
        first,
    )[i] is Infix) by {
        assert(body.subrange(0, first)[i] == body[i]);
    }
    lemma_count_without_infix(body.subrange(0, first));
    assert(head.subrange(first, first + 1) =~= seq![body[first]]);
    assert(seq![body[first]].drop_last() =~= Seq::<NodeView>::empty());
    assert(count_infix(seq![body[first]]) == 1);
    lemma_count_from(body, first + 1);
    lemma_next_infix(body, first + 1);
}

/// A list without an infix operator stays as it is.
pub proof fn lemma_no_infix_operator_changes_nothing(
    mode: Mode,
    body: Seq<NodeView>,
    source: LexerView,
)
    requires
        count_infix(body) == 0,
    ensures
        handle_infix_nodes(mode, body, source) == Ok::<Seq<NodeView>, ParseErrorView>(body),
{
    reveal(handle_infix_nodes);
    lemma_count_from(body, 0);
    assert(body.subrange(0, body.len() as int) =~= body);
}

/// Exactly one infix operator is rewritten to the call of the command it
/// stands for: what stands before the operator is the first argument, what
/// stands after it the second, each as one group.
pub proof fn lemma_one_infix_operator_is_rewritten(
    mode: Mode,
    body: Seq<NodeView>,
    source: LexerView,
    at: int,
)
    requires
        0 <= at < body.len(),
        body[at] is Infix,
        count_infix(body) == 1,
        body[at]->Infix_replace_with.len() > 0,
        body[at]->Infix_replace_with != "\\\\abovefrac"@,
    ensures
        handle_infix_nodes(mode, body, source) == match call_function(
            mode,
            body[at]->Infix_replace_with,
            seq![
                operand(mode, body.subrange(0, at)),
                operand(mode, body.subrange(at + 1, body.len() as int)),
            ],
            None,
            source,
        ) {
            Ok(node) => Ok::<Seq<NodeView>, ParseErrorView>(seq![node]),
            Err(e) => Err(e),
        },
{
    reveal(handle_infix_nodes);
    lemma_next_infix(body, 0);
    let first = next_infix(body, 0);
    assert(first <= at);
    lemma_count_infix_split(body, at + 1);
    let head = body.subrange(0, at + 1);
    lemma_count_infix_split(head, at);
    assert(head.subrange(at, at + 1) =~= seq![body[at]]);
    assert(seq![body[at]].drop_last() =~= Seq::<NodeView>::empty());
    assert(count_infix(seq![body[at]]) == 1);
    assert(head.subrange(0, at) =~= body.subrange(0, at));
    if first < at {
        lemma_count_infix_split(body.subrange(0, at), first + 1);
        let part = body.subrange(0, at).subrange(0, first + 1);
        assert(part.last() == body[first]);
        assert(count_infix(part) >= 1);
    }
    lemma_count_from(body, at + 1);
    lemma_next_infix(body, at + 1);
}

} // verus!
