//! What the parser does, written down as functions on its state.
//!
//! The parser reads expanded tokens through a lookahead of one token and
//! builds nodes. Each operation is a function from the state before it to
//! the state after it and what it returns.
//!
//! The operations that call each other in a circle take a `limit`: a bound
//! on the measure of the state, which goes down around every circle and so
//! shows that parsing ends. Where an operation goes round in a loop, it
//! first tests that the measure has gone down. The test never fails, since
//! every atom and every script uses up a token: the module `progress`
//! proves it.
//!
//! For each of these operations a lemma says what it comes to in one step,
//! in terms of the operations it calls.

use vstd::prelude::*;
use crate::functions::{FunctionKind, function_spec, infix_replacement, is_delimiter};
use crate::gullet::{
    GulletView, Measure, lemma_expand_next_token_measure, lemma_space_is_not_eof, weight,
};
use crate::lexer::eof_text;
use crate::namespace::{MacroDefinitionView, MacroExpansionView};
use crate::parse_error::{ParseError, ParseErrorKind, ParseErrorView};
use crate::parse_node::NodeView;
use crate::parser::Mode;
use crate::source_location::SourceLocation;
use crate::symbols::{SymbolGroup, lemma_symbols_are_not_eof, symbol};
use crate::token::TokenView;

verus! {

/// The settings that parsing reads.
pub struct ParseSettings {
    pub display_mode: bool,
    pub color_is_text_color: bool,
    pub global_group: bool,
}

/// The state of the parser.
pub struct ParserView {
    pub gullet: GulletView,
    pub mode: Mode,
    /// How many `\left` are open.
    pub leftright_depth: nat,
    /// How many groups and arguments are open around what is being parsed.
    pub nesting: nat,
    /// The lookahead: the next token, if it has been fetched.
    pub next_token: Option<TokenView>,
    pub settings: ParseSettings,
}

/// The deepest nesting of groups and arguments that the parser follows: as
/// many levels as TeX itself allows.
pub const MAX_NESTING: usize = 255;

/// The state after an operation of the parser, with what the operation
/// returned or the error that ended it.
pub struct Parsed<T> {
    pub state: ParserView,
    pub result: Result<T, ParseErrorView>,
}

/// The tokens that end every expression.
pub open spec fn is_end_of_expression(text: Seq<char>) -> bool {
    text == "}"@ || text == "\\endgroup"@ || text == "\\end"@ || text == "\\right"@ || text
        == "&"@
}

/// Whether `text` names an infix operator.
pub open spec fn is_infix(text: Seq<char>) -> bool {
    function_spec(text) matches Some(f) && f.infix
}

/// The names that `\def` cannot define.
pub open spec fn is_reserved(text: Seq<char>) -> bool {
    text == "\\"@ || text == "{"@ || text == "}"@ || text == "$"@ || text == "&"@ || text
        == "#"@ || text == "^"@ || text == "_"@ || text == eof_text()
}

/// The base `base` with the scripts `sup` and `sub`; the base alone if both
/// are missing.
pub open spec fn with_scripts(
    mode: Mode,
    base: Option<NodeView>,
    sup: Option<NodeView>,
    sub: Option<NodeView>,
) -> Option<NodeView> {
    if sup is None && sub is None {
        base
    } else {
        Some(
            NodeView::SupSub {
                mode,
                loc: None,
                base: match base {
                    Some(n) => Some(Box::new(n)),
                    None => None,
                },
                sup: match sup {
                    Some(n) => Some(Box::new(n)),
                    None => None,
                },
                sub: match sub {
                    Some(n) => Some(Box::new(n)),
                    None => None,
                },
            },
        )
    }
}

/// The node of a symbol of group `group`, read from `token`.
pub open spec fn symbol_node(group: SymbolGroup, mode: Mode, token: TokenView) -> NodeView {
    if group.is_atom() {
        NodeView::Atom { family: group, mode, loc: token.loc, text: token.text }
    } else if group == SymbolGroup::MathOrd {
        NodeView::MathOrd { mode, loc: token.loc, text: token.text }
    } else if group == SymbolGroup::Spacing {
        NodeView::Spacing { mode, loc: token.loc, text: token.text }
    } else {
        NodeView::TextOrd { mode, loc: token.loc, text: token.text }
    }
}

/// The operand of an infix operator: `nodes` itself if it is one group, else
/// a new group around `nodes`.
pub open spec fn operand(mode: Mode, nodes: Seq<NodeView>) -> NodeView {
    if nodes.len() == 1 && nodes[0] is OrdGroup {
        nodes[0]
    } else {
        NodeView::OrdGroup { mode, loc: None, body: nodes, semisimple: None }
    }
}

/// Whether the fraction `name` has a bar.
pub open spec fn has_bar_line(name: Seq<char>) -> bool {
    name == "\\frac"@ || name == "\\dfrac"@ || name == "\\tfrac"@
}

/// The delimiter on the left of the fraction `name`.
pub open spec fn left_delimiter(name: Seq<char>) -> Option<Seq<char>> {
    if name == "\\binom"@ || name == "\\dbinom"@ || name == "\\tbinom"@ {
        Some("("@)
    } else if name == "\\\\bracefrac"@ {
        Some("\\{"@)
    } else if name == "\\\\brackfrac"@ {
        Some("["@)
    } else {
        None
    }
}

/// The delimiter on the right of the fraction `name`.
pub open spec fn right_delimiter(name: Seq<char>) -> Option<Seq<char>> {
    if name == "\\binom"@ || name == "\\dbinom"@ || name == "\\tbinom"@ {
        Some(")"@)
    } else if name == "\\\\bracefrac"@ {
        Some("\\}"@)
    } else if name == "\\\\brackfrac"@ {
        Some("]"@)
    } else {
        None
    }
}

/// The style that the fraction `name` is set in.
pub open spec fn fraction_size(name: Seq<char>) -> Seq<char> {
    if name == "\\dfrac"@ || name == "\\dbinom"@ {
        "display"@
    } else if name == "\\tfrac"@ || name == "\\tbinom"@ {
        "text"@
    } else {
        "auto"@
    }
}

/// The node that the command `name` makes of `args`: for a fraction, numerator
/// over denominator; for the fraction that takes three arguments, the infix
/// node in the middle gives the thickness of the rule. No other command can
/// be called this way.
#[verifier::opaque]
pub open spec fn call_function(
    mode: Mode,
    name: Seq<char>,
    args: Seq<NodeView>,
    token: Option<TokenView>,
    source: crate::lexer::LexerView,
) -> Result<NodeView, ParseErrorView> {
    if (function_spec(name) matches Some(f) && f.kind == FunctionKind::Genfrac) && args.len()
        == function_spec(name)->0.num_args {
        if args.len() == 3 {
            match args[1] {
                NodeView::Infix { size: Some(thickness), .. } => Ok(
                    NodeView::Genfrac {
                        mode,
                        loc: None,
                        continued: false,
                        numer: Box::new(args[0]),
                        denom: Box::new(args[2]),
                        has_bar_line: thickness.number > 0,
                        left_delim: None,
                        right_delim: None,
                        size: "auto"@,
                        bar_size: Some(thickness),
                    },
                ),
                _ => Err(
                    ParseError::spec_new(
                        ParseErrorKind::MissingArgument,
                        "Expected a rule thickness"@,
                        token,
                        source,
                    ),
                ),
            }
        } else {
            Ok(
                NodeView::Genfrac {
                    mode,
                    loc: None,
                    continued: false,
                    numer: Box::new(args[0]),
                    denom: Box::new(args[1]),
                    has_bar_line: has_bar_line(name),
                    left_delim: left_delimiter(name),
                    right_delim: right_delimiter(name),
                    size: fraction_size(name),
                    bar_size: None,
                },
            )
        }
    } else {
        Err(
            ParseError::spec_new(
                ParseErrorKind::NoFunctionHandler,
                "No function handler for "@ + name,
                token,
                source,
            ),
        )
    }
}

/// The position of the first infix node in `body` from `from` on, or the
/// length of `body` if there is none.
pub open spec fn next_infix(body: Seq<NodeView>, from: int) -> int
    decreases body.len() - from,
{
    if 0 <= from < body.len() {
        if body[from] is Infix {
            from
        } else {
            next_infix(body, from + 1)
        }
    } else {
        body.len() as int
    }
}

/// Rewrites an infix operator such as `\over` to the command that it stands
/// for, with what stands before it and what stands after it as arguments.
/// More than one infix operator in `body` is an error, raised at the second.
#[verifier::opaque]
pub open spec fn handle_infix_nodes(
    mode: Mode,
    body: Seq<NodeView>,
    source: crate::lexer::LexerView,
) -> Result<Seq<NodeView>, ParseErrorView> {
    let first = next_infix(body, 0);
    if first >= body.len() {
        Ok(body)
    } else {
        let second = next_infix(body, first + 1);
        if second < body.len() {
            Err(
                ParseError::spec_new(
                    ParseErrorKind::MultipleInfixOperators,
                    "only one infix operator per group"@,
                    body[second]->Infix_token,
                    source,
                ),
            )
        } else {
            let name = body[first]->Infix_replace_with;
            if name.len() == 0 {
                Ok(body)
            } else {
                let numer = operand(mode, body.subrange(0, first));
                let denom = operand(mode, body.subrange(first + 1, body.len() as int));
                let args = if name == "\\\\abovefrac"@ {
                    seq![numer, body[first], denom]
                } else {
                    seq![numer, denom]
                };
                match call_function(mode, name, args, None, source) {
                    Ok(node) => Ok(seq![node]),
                    Err(e) => Err(e),
                }
            }
        }
    }
}

/// The text that a node shows, if it is a symbol.
pub open spec fn symbol_text(node: NodeView) -> Option<Seq<char>> {
    match node {
        NodeView::Atom { text, .. } => Some(text),
        NodeView::MathOrd { text, .. } => Some(text),
        NodeView::TextOrd { text, .. } => Some(text),
        NodeView::Spacing { text, .. } => Some(text),
        _ => None,
    }
}

/// The place of a node, if it is a symbol.
pub open spec fn symbol_loc(node: NodeView) -> Option<SourceLocation> {
    match node {
        NodeView::Atom { loc, .. } => loc,
        NodeView::MathOrd { loc, .. } => loc,
        NodeView::TextOrd { loc, .. } => loc,
        NodeView::Spacing { loc, .. } => loc,
        _ => None,
    }
}

/// How many nodes at the front of `body` form one ligature: three hyphens,
/// two hyphens, two backticks or two apostrophes; else none.
pub open spec fn ligature_length(body: Seq<NodeView>) -> int {
    if body.len() >= 2 && symbol_text(body[0]) == Some("-"@) && symbol_text(body[1]) == Some(
        "-"@,
    ) {
        if body.len() >= 3 && symbol_text(body[2]) == Some("-"@) {
            3
        } else {
            2
        }
    } else if body.len() >= 2 && (symbol_text(body[0]) == Some("'"@) || symbol_text(body[0])
        == Some("`"@)) && symbol_text(body[1]) == symbol_text(body[0]) {
        2
    } else {
        0
    }
}

/// The texts of the first `n` nodes of `body`, joined.
pub open spec fn joined_symbols(body: Seq<NodeView>, n: int) -> Seq<char>
    decreases n,
{
    if n <= 0 || n > body.len() {
        Seq::empty()
    } else {
        joined_symbols(body, n - 1) + match symbol_text(body[n - 1]) {
            Some(t) => t,
            None => Seq::empty(),
        }
    }
}

/// `body` with the ligatures of text mode formed, from left to right.
#[verifier::opaque]
pub open spec fn form_ligatures(body: Seq<NodeView>) -> Seq<NodeView>
    decreases body.len(),
{
    if body.len() == 0 {
        body
    } else {
        let n = ligature_length(body);
        if n >= 2 {
            seq![
                NodeView::TextOrd {
                    mode: Mode::Text,
                    loc: SourceLocation::spec_range(
                        symbol_loc(body[0]),
                        symbol_loc(body[n - 1]),
                    ),
                    text: joined_symbols(body, n),
                },
            ] + form_ligatures(body.skip(n))
        } else {
            seq![body[0]] + form_ligatures(body.skip(1))
        }
    }
}

impl ParserView {
    pub open spec fn wf(self) -> bool {
        self.gullet.wf()
    }

    /// The weight of what is still to be read, the lookahead counted in.
    pub open spec fn pending(self) -> int {
        self.gullet.pending() + match self.next_token {
            Some(t) => weight(t),
            None => 0,
        }
    }

    pub open spec fn measure(self) -> Measure {
        Measure { fuel: self.gullet.fuel(), pending: self.pending() }
    }

    pub open spec fn fail<T>(
        self,
        kind: ParseErrorKind,
        message: Seq<char>,
        token: Option<TokenView>,
    ) -> Parsed<T> {
        Parsed { state: self, result: Err(self.gullet.error(kind, message, token)) }
    }

    pub open spec fn done<T>(self, value: T) -> Parsed<T> {
        Parsed { state: self, result: Ok(value) }
    }

    /// The state with the expander in the state `gullet`.
    pub open spec fn with_gullet(self, gullet: GulletView) -> ParserView {
        ParserView { gullet, ..self }
    }

    pub open spec fn switch_mode(self, mode: Mode) -> ParserView {
        ParserView { mode, ..self }
    }

    /// The state one level of nesting deeper.
    pub open spec fn nested(self) -> ParserView {
        ParserView { nesting: self.nesting + 1, ..self }
    }

    /// The state at the level of nesting `nesting`.
    pub open spec fn at_level(self, nesting: nat) -> ParserView {
        ParserView { nesting, ..self }
    }

    /// The lookahead token; if there is none yet, the next expanded token
    /// becomes the lookahead.
    pub open spec fn fetch(self) -> Parsed<TokenView> {
        match self.next_token {
            Some(token) => self.done(token),
            None => {
                let step = self.gullet.expand_next_token();
                match step.result {
                    Ok(token) => (ParserView {
                        gullet: step.state,
                        next_token: Some(token),
                        ..self
                    }).done(token),
                    Err(e) => Parsed { state: self.with_gullet(step.state), result: Err(e) },
                }
            },
        }
    }

    /// The lookahead is used up.
    pub open spec fn consume(self) -> ParserView {
        ParserView { next_token: None, ..self }
    }

    /// The lookahead must be `text`; with `consume`, it is used up.
    pub open spec fn expect(self, text: Seq<char>, consume: bool) -> Parsed<()> {
        let fetched = self.fetch();
        match fetched.result {
            Ok(token) => if token.text != text {
                fetched.state.fail(
                    ParseErrorKind::UnexpectedToken,
                    "Expected '"@ + text + "', got '"@ + token.text + "'"@,
                    Some(token),
                )
            } else if consume {
                fetched.state.consume().done(())
            } else {
                fetched.state.done(())
            },
            Err(e) => Parsed { state: fetched.state, result: Err(e) },
        }
    }

    /// The spaces at the front are used up.
    #[verifier::opaque]
    pub open spec fn consume_spaces(self) -> Parsed<()>
        decreases self.gullet.fuel(), self.pending(),
        when self.wf()
    {
        let fetched = self.fetch();
        match fetched.result {
            Ok(token) => if token.text == " "@ {
                proof {
                    lemma_fetch_measure(self);
                    lemma_space_is_not_eof();
                }
                fetched.state.consume().consume_spaces()
            } else {
                fetched.state.done(())
            },
            Err(e) => Parsed { state: fetched.state, result: Err(e) },
        }
    }

    /// Reads a symbol, if the lookahead is one in the current mode.
    #[verifier::opaque]
    pub open spec fn parse_symbol(self) -> Parsed<Option<NodeView>> {
        let fetched = self.fetch();
        match fetched.result {
            Ok(token) => match symbol(self.mode, token.text) {
                Some(group) => fetched.state.consume().done(
                    Some(symbol_node(group, self.mode, token)),
                ),
                None => fetched.state.done(None),
            },
            Err(e) => Parsed { state: fetched.state, result: Err(e) },
        }
    }

    /// Reads a delimiter: a symbol of the current mode that can stand as one.
    /// Spaces before it are passed over.
    #[verifier::opaque]
    pub open spec fn parse_delimiter(self, command: TokenView) -> Parsed<Seq<char>> {
        let spaced = self.consume_spaces();
        match spaced.result {
            Ok(_) => {
                let fetched = spaced.state.fetch();
                match fetched.result {
                    Ok(token) => if symbol(self.mode, token.text) is Some && is_delimiter(
                        token.text,
                    ) {
                        fetched.state.consume().done(token.text)
                    } else {
                        fetched.state.fail(
                            ParseErrorKind::InvalidDelimiter,
                            "Invalid delimiter '"@ + token.text + "' after '"@ + command.text
                                + "'"@,
                            Some(token),
                        )
                    },
                    Err(e) => Parsed { state: fetched.state, result: Err(e) },
                }
            },
            Err(e) => Parsed { state: spaced.state, result: Err(e) },
        }
    }

    /// Reads the parameters of a definition up to the body: `#1`, `#2` and so
    /// on, in order. `count` are read already. Gives their number.
    #[verifier::opaque]
    pub open spec fn read_parameters(self, count: nat) -> Parsed<nat>
        decreases self.gullet.remaining(),
        when self.wf()
    {
        let (next, looked) = self.gullet.future();
        if next.text == "{"@ {
            self.with_gullet(looked).done(count)
        } else {
            let (token, popped) = self.gullet.pop();
            if token.text == "#"@ {
                let (number, after) = popped.pop();
                if crate::gullet::argument_number(number.text) == Some(count + 1) {
                    proof {
                        crate::gullet::lemma_pop_decreases(self.gullet);
                        crate::gullet::lemma_pop_decreases(popped);
                        lemma_hash_is_not_eof();
                    }
                    self.with_gullet(after).read_parameters(count + 1)
                } else {
                    self.with_gullet(after).fail(
                        ParseErrorKind::InvalidDefinition,
                        "Invalid argument number"@,
                        Some(number),
                    )
                }
            } else if token.text == eof_text() {
                self.with_gullet(popped).fail(
                    ParseErrorKind::UnexpectedEof,
                    "Expected a macro definition"@,
                    Some(token),
                )
            } else {
                self.with_gullet(popped).fail(
                    ParseErrorKind::InvalidDefinition,
                    "Expected a parameter or the macro body"@,
                    Some(token),
                )
            }
        }
    }

    /// Reads a definition after `\def` or `\gdef`: the name, the parameters
    /// and the body; and defines the macro, for `\gdef` in every layer.
    #[verifier::opaque]
    pub open spec fn define_macro(self, global: bool) -> Parsed<Option<NodeView>> {
        let (name, popped) = self.gullet.pop();
        if is_reserved(name.text) {
            self.with_gullet(popped).fail(
                ParseErrorKind::InvalidDefinition,
                "Expected a control sequence"@,
                Some(name),
            )
        } else {
            let parameters = self.with_gullet(popped).read_parameters(0);
            match parameters.result {
                Ok(count) => {
                    let body = parameters.state.gullet.consume_arg(None);
                    match body.result {
                        Ok(arg) => {
                            let definition = MacroDefinitionView::Expansion(
                                MacroExpansionView {
                                    tokens: arg.tokens,
                                    num_args: count,
                                    delimiters: None,
                                },
                            );
                            parameters.state.with_gullet(
                                GulletView {
                                    macros: if global {
                                        body.state.macros.insert_global(name.text, definition)
                                    } else {
                                        body.state.macros.insert(name.text, definition)
                                    },
                                    ..body.state
                                },
                            ).done(Some(NodeView::Internal { mode: self.mode, loc: None }))
                        },
                        Err(e) => Parsed {
                            state: parameters.state.with_gullet(body.state),
                            result: Err(e),
                        },
                    }
                },
                Err(e) => Parsed { state: parameters.state, result: Err(e) },
            }
        }
    }

    /// Reads the argument of `\tag` and keeps it as the macro `\df@tag`, in
    /// every layer. A second tag is an error.
    #[verifier::opaque]
    pub open spec fn define_tag(self, token: TokenView) -> Parsed<Option<NodeView>> {
        if self.gullet.macros.has("\\df@tag"@) {
            self.fail(ParseErrorKind::DuplicateTag, "Multiple \\tag"@, Some(token))
        } else {
            let body = self.gullet.consume_arg(None);
            match body.result {
                Ok(arg) => self.with_gullet(
                    GulletView {
                        macros: body.state.macros.insert_global(
                            "\\df@tag"@,
                            MacroDefinitionView::Expansion(
                                MacroExpansionView {
                                    tokens: arg.tokens,
                                    num_args: 0,
                                    delimiters: None,
                                },
                            ),
                        ),
                        ..body.state
                    },
                ).done(Some(NodeView::Internal { mode: self.mode, loc: None })),
                Err(e) => Parsed { state: self.with_gullet(body.state), result: Err(e) },
            }
        }
    }

    /// The state in which an argument is parsed: one level deeper, in a
    /// macro scope of its own.
    pub open spec fn argument_opened(self, scanned: GulletView) -> ParserView {
        self.nested().with_gullet(scanned.begin_group())
    }

    /// What follows the expression in an argument: the end marker behind the
    /// argument ends its macro scope, and the argument is a group of what
    /// was read.
    pub open spec fn finish_argument(
        self,
        spanned: Option<TokenView>,
        inner: Parsed<Seq<NodeView>>,
    ) -> Parsed<NodeView> {
        match inner.result {
            Ok(body) => {
                let closed = inner.state.expect(eof_text(), true);
                match closed.result {
                    Ok(_) => {
                        let ended = closed.state.gullet.end_group();
                        Parsed {
                            state: closed.state.at_level(self.nesting).with_gullet(ended.state),
                            result: match ended.result {
                                Ok(_) => Ok(
                                    NodeView::OrdGroup {
                                        mode: self.mode,
                                        loc: match spanned {
                                            Some(t) => t.loc,
                                            None => None,
                                        },
                                        body,
                                        semisimple: None,
                                    },
                                ),
                                Err(e) => Err(e),
                            },
                        }
                    },
                    Err(e) => Parsed { state: closed.state, result: Err(e) },
                }
            },
            Err(e) => Parsed { state: inner.state, result: Err(e) },
        }
    }

    /// Reads `count` more arguments of a command and appends them to `acc`.
    /// Each argument is put back behind an end marker and parsed as an
    /// expression in a group of its own.
    #[verifier::opaque]
    pub open spec fn parse_arguments(self, limit: Measure, count: nat, acc: Seq<NodeView>) -> Parsed<
        Seq<NodeView>,
    >
        decreases limit.fuel, limit.pending, 9int, count,
        when self.wf() && self.measure().within(limit)
    {
        if count == 0 {
            self.done(acc)
        } else if self.nesting >= MAX_NESTING {
            self.fail(ParseErrorKind::NestingTooDeep, "Arguments and groups nest too deep"@, None)
        } else {
            let scanned = self.gullet.scan_argument(false);
            match scanned.result {
                Ok(spanned) => {
                    let arg = self.finish_argument(
                        spanned,
                        self.argument_opened(scanned.state).parse_expression(
                            limit,
                            false,
                            Some(eof_text()),
                        ),
                    );
                    match arg.result {
                        Ok(node) => arg.state.parse_arguments(
                            limit,
                            (count - 1) as nat,
                            acc.push(node),
                        ),
                        Err(e) => Parsed { state: arg.state, result: Err(e) },
                    }
                },
                Err(e) => Parsed { state: self.with_gullet(scanned.state), result: Err(e) },
            }
        }
    }

    /// The state in which the content between delimiters is parsed, after
    /// the left delimiter was read in the state `delimited`.
    pub open spec fn left_right_opened(self, delimited: ParserView) -> ParserView {
        ParserView {
            leftright_depth: self.leftright_depth + 1,
            nesting: self.nesting + 1,
            ..delimited
        }
    }

    /// What follows the content between delimiters: `\right` and the right
    /// delimiter.
    pub open spec fn finish_left_right(
        self,
        command: TokenView,
        left_delim: Seq<char>,
        inner: Parsed<Seq<NodeView>>,
    ) -> Parsed<Option<NodeView>> {
        match inner.result {
            Ok(body) => {
                let closed = (ParserView {
                    leftright_depth: self.leftright_depth,
                    nesting: self.nesting,
                    ..inner.state
                }).expect("\\right"@, true);
                match closed.result {
                    Ok(_) => {
                        let right = closed.state.parse_delimiter(command);
                        Parsed {
                            state: right.state,
                            result: match right.result {
                                Ok(right_delim) => Ok(
                                    Some(
                                        NodeView::LeftRight {
                                            mode: self.mode,
                                            loc: None,
                                            body,
                                            left: left_delim,
                                            right: right_delim,
                                            right_color: None,
                                        },
                                    ),
                                ),
                                Err(e) => Err(e),
                            },
                        }
                    },
                    Err(e) => Parsed { state: closed.state, result: Err(e) },
                }
            },
            Err(e) => Parsed { state: inner.state, result: Err(e) },
        }
    }

    /// Reads what follows `\left`: the left delimiter, an expression, which
    /// may hold `\middle`, then `\right` and the right delimiter.
    #[verifier::opaque]
    pub open spec fn parse_left_right(self, limit: Measure, command: TokenView) -> Parsed<
        Option<NodeView>,
    >
        decreases limit.fuel, limit.pending, 2int, 0nat,
        when self.wf() && self.measure().within(limit)
    {
        let left = self.parse_delimiter(command);
        match left.result {
            Ok(left_delim) => if self.nesting >= MAX_NESTING || self.leftright_depth
                >= MAX_NESTING {
                left.state.fail(
                    ParseErrorKind::NestingTooDeep,
                    "Arguments and groups nest too deep"@,
                    Some(command),
                )
            } else {
                proof {
                    lemma_parse_delimiter_measure(self, command);
                }
                self.finish_left_right(
                    command,
                    left_delim,
                    self.left_right_opened(left.state).parse_expression(
                        self.left_right_opened(left.state).measure(),
                        false,
                        None,
                    ),
                )
            },
            Err(e) => Parsed { state: left.state, result: Err(e) },
        }
    }

    /// What a command that reads no expression does: an infix operator and
    /// `\relax` leave a node, `\def` and `\tag` define a macro, `\right` and
    /// `\middle` read their delimiter.
    pub open spec fn handle_simple(
        self,
        f: crate::functions::FunctionSpec,
        token: TokenView,
    ) -> Parsed<Option<NodeView>> {
        match f.kind {
            FunctionKind::Infix => self.done(
                Some(
                    NodeView::Infix {
                        mode: self.mode,
                        loc: None,
                        replace_with: infix_replacement(token.text),
                        size: None,
                        token: Some(token),
                    },
                ),
            ),
            FunctionKind::Def => self.define_macro(token.text == "\\gdef"@),
            FunctionKind::Tag => self.define_tag(token),
            FunctionKind::Right => {
                let delim = self.parse_delimiter(token);
                Parsed {
                    state: delim.state,
                    result: match delim.result {
                        Ok(d) => Ok(
                            Some(
                                NodeView::LeftRightRight {
                                    mode: self.mode,
                                    loc: None,
                                    delim: d,
                                    color: None,
                                },
                            ),
                        ),
                        Err(e) => Err(e),
                    },
                }
            },
            FunctionKind::Middle => if self.leftright_depth == 0 {
                self.fail(
                    ParseErrorKind::MiddleWithoutLeft,
                    "\\middle without preceding \\left"@,
                    Some(token),
                )
            } else {
                let delim = self.parse_delimiter(token);
                Parsed {
                    state: delim.state,
                    result: match delim.result {
                        Ok(d) => Ok(
                            Some(NodeView::Middle { mode: self.mode, loc: None, delim: d }),
                        ),
                        Err(e) => Err(e),
                    },
                }
            },
            _ => self.done(Some(NodeView::Internal { mode: self.mode, loc: None })),
        }
    }

    /// What follows the argument of `\text`: the mode is what it was, and the
    /// argument's content is the text.
    pub open spec fn finish_text(self, read: Parsed<Seq<NodeView>>) -> Parsed<Option<NodeView>> {
        Parsed {
            state: read.state.switch_mode(self.mode),
            result: match read.result {
                Ok(args) => Ok(
                    Some(
                        NodeView::Text {
                            mode: self.mode,
                            loc: None,
                            body: if args.len() == 1 && args[0] is OrdGroup {
                                args[0]->OrdGroup_body
                            } else {
                                args
                            },
                            font: None,
                        },
                    ),
                ),
                Err(e) => Err(e),
            },
        }
    }

    /// What follows the arguments of a command: the command is called on
    /// them.
    pub open spec fn finish_call(
        self,
        token: TokenView,
        read: Parsed<Seq<NodeView>>,
    ) -> Parsed<Option<NodeView>> {
        match read.result {
            Ok(args) => Parsed {
                state: read.state,
                result: match call_function(
                    self.mode,
                    token.text,
                    args,
                    Some(token),
                    read.state.gullet.lexer,
                ) {
                    Ok(node) => Ok(Some(node)),
                    Err(e) => Err(e),
                },
            },
            Err(e) => Parsed { state: read.state, result: Err(e) },
        }
    }

    /// Does what the command `token` asks for; `f` is its entry in the function
    /// table. The command itself is used up already.
    #[verifier::opaque]
    pub open spec fn handle_function(
        self,
        limit: Measure,
        f: crate::functions::FunctionSpec,
        token: TokenView,
    ) -> Parsed<Option<NodeView>>
        decreases limit.fuel, limit.pending, 10int, 0nat,
        when self.wf() && self.measure().within(limit)
    {
        match f.kind {
            FunctionKind::Left => self.parse_left_right(limit, token),
            FunctionKind::Genfrac => self.finish_call(
                token,
                self.parse_arguments(limit, f.num_args as nat, Seq::empty()),
            ),
            FunctionKind::Text => self.finish_text(
                self.switch_mode(Mode::Text).parse_arguments(limit, 1, Seq::empty()),
            ),
            _ => self.handle_simple(f, token),
        }
    }

    /// Looks whether the lookahead is a command of the function table that
    /// the current mode allows, and if so uses it up.
    pub open spec fn function_head(self) -> Parsed<
        Option<(crate::functions::FunctionSpec, TokenView)>,
    > {
        let fetched = self.fetch();
        match fetched.result {
            Ok(token) => match function_spec(token.text) {
                Some(f) => if self.mode == Mode::Text && !f.allowed_in_text {
                    fetched.state.consume().fail(
                        ParseErrorKind::WrongMode,
                        "Can't use function '"@ + token.text + "' in text mode"@,
                        Some(token),
                    )
                } else {
                    fetched.state.consume().done(Some((f, token)))
                },
                None => fetched.state.done(None),
            },
            Err(e) => Parsed { state: fetched.state, result: Err(e) },
        }
    }

    /// Reads a command of the function table with its arguments, if the
    /// lookahead is one.
    #[verifier::opaque]
    pub open spec fn parse_function(self, limit: Measure) -> Parsed<Option<NodeView>>
        decreases limit.fuel, limit.pending, 3int, 0nat,
        when self.wf() && self.measure().within(limit)
    {
        let head = self.function_head();
        match head.result {
            Ok(Some((f, token))) => {
                proof {
                    lemma_function_head_measure(self);
                }
                head.state.handle_function(head.state.measure(), f, token)
            },
            Ok(None) => head.state.done(None),
            Err(e) => Parsed { state: head.state, result: Err(e) },
        }
    }

    /// What follows the expression in a group: the closing token ends the
    /// group's macro scope, and the group is made of what was read.
    pub open spec fn finish_braced(
        self,
        first: TokenView,
        inner: Parsed<Seq<NodeView>>,
    ) -> Parsed<Option<NodeView>> {
        let group_end = if first.text == "{"@ {
            "}"@
        } else {
            "\\endgroup"@
        };
        match inner.result {
            Ok(body) => {
                let last = inner.state.fetch();
                match last.result {
                    Ok(last_token) => {
                        let closed = last.state.expect(group_end, true);
                        match closed.result {
                            Ok(_) => {
                                let ended = closed.state.gullet.end_group();
                                Parsed {
                                    state: closed.state.at_level(self.nesting).with_gullet(
                                        ended.state,
                                    ),
                                    result: match ended.result {
                                        Ok(_) => Ok(
                                            Some(
                                                NodeView::OrdGroup {
                                                    mode: self.mode,
                                                    loc: SourceLocation::spec_range(
                                                        first.loc,
                                                        last_token.loc,
                                                    ),
                                                    body,
                                                    semisimple: if first.text == "{"@ {
                                                        None
                                                    } else {
                                                        Some(true)
                                                    },
                                                },
                                            ),
                                        ),
                                        Err(e) => Err(e),
                                    },
                                }
                            },
                            Err(e) => Parsed { state: closed.state, result: Err(e) },
                        }
                    },
                    Err(e) => Parsed { state: last.state, result: Err(e) },
                }
            },
            Err(e) => Parsed { state: inner.state, result: Err(e) },
        }
    }

    /// The state in which the inside of a group is parsed: the opening token
    /// used up, one level deeper, in a macro scope of its own.
    pub open spec fn opened(self) -> ParserView {
        self.consume().nested().with_gullet(self.gullet.begin_group())
    }

    /// Reads a group after its opening token `first`: an expression up to the
    /// closing token, in a macro scope of its own.
    #[verifier::opaque]
    pub open spec fn parse_braced(self, limit: Measure, first: TokenView) -> Parsed<
        Option<NodeView>,
    >
        decreases limit.fuel, limit.pending, 4int, 0nat,
        when self.wf() && self.measure().within(limit) && self.next_token == Some(first)
            && weight(first) == 1
    {
        if self.nesting >= MAX_NESTING {
            self.consume().fail(
                ParseErrorKind::NestingTooDeep,
                "Arguments and groups nest too deep"@,
                Some(first),
            )
        } else {
            proof {
                lemma_pending_bounds(self);
            }
            self.finish_braced(
                first,
                self.opened().parse_expression(
                    self.opened().measure(),
                    false,
                    Some(
                        if first.text == "{"@ {
                            "}"@
                        } else {
                            "\\endgroup"@
                        },
                    ),
                ),
            )
        }
    }

    /// What follows the attempt to read a command: if there was none, a
    /// symbol is read; a control sequence that is neither is an error; any
    /// other token is left, and nothing is returned.
    pub open spec fn finish_plain(first: TokenView, function: Parsed<Option<NodeView>>) -> Parsed<
        Option<NodeView>,
    > {
        match function.result {
            Ok(None) => {
                let symbol = function.state.parse_symbol();
                match symbol.result {
                    Ok(None) => if first.text.len() > 0 && first.text[0] == '\\'
                        && !crate::gullet::is_implicit_command(first.text) {
                        symbol.state.fail(
                            ParseErrorKind::UndefinedControlSequence,
                            "Undefined control sequence: "@ + first.text,
                            Some(first),
                        )
                    } else {
                        symbol.state.done(None)
                    },
                    _ => symbol,
                }
            },
            _ => function,
        }
    }

    /// Reads a command or a symbol; `first` is the lookahead.
    #[verifier::opaque]
    pub open spec fn parse_plain(self, limit: Measure, first: TokenView) -> Parsed<
        Option<NodeView>,
    >
        decreases limit.fuel, limit.pending, 4int, 0nat,
        when self.wf() && self.measure().within(limit)
    {
        Self::finish_plain(first, self.parse_function(limit))
    }

    /// Reads a group in braces or between `\begingroup` and `\endgroup`, a
    /// command, or a symbol.
    #[verifier::opaque]
    pub open spec fn parse_group(self, limit: Measure) -> Parsed<Option<NodeView>>
        decreases limit.fuel, limit.pending, 5int, 0nat,
        when self.wf() && self.measure().within(limit)
    {
        let fetched = self.fetch();
        match fetched.result {
            Ok(first) => {
                proof {
                    lemma_fetch_measure(self);
                    lemma_commands_are_not_eof();
                }
                if first.text == "{"@ || first.text == "\\begingroup"@ {
                    fetched.state.parse_braced(limit, first)
                } else {
                    fetched.state.parse_plain(limit, first)
                }
            },
            Err(e) => Parsed { state: fetched.state, result: Err(e) },
        }
    }

    /// What follows the attempt to read a group after `^` or `_`: there must
    /// be one.
    pub open spec fn finish_script(symbol: TokenView, group: Parsed<Option<NodeView>>) -> Parsed<
        NodeView,
    > {
        match group.result {
            Ok(Some(node)) => group.state.done(node),
            Ok(None) => group.state.fail(
                ParseErrorKind::MissingArgument,
                "Expected group after '"@ + symbol.text + "'"@,
                Some(symbol),
            ),
            Err(e) => Parsed { state: group.state, result: Err(e) },
        }
    }

    /// Reads the group that follows `^` or `_`; `symbol` is that token.
    #[verifier::opaque]
    pub open spec fn parse_script(self, limit: Measure, symbol: TokenView) -> Parsed<NodeView>
        decreases limit.fuel, limit.pending, 6int, 0nat,
        when self.wf() && self.measure().within(limit)
    {
        let spaced = self.consume_spaces();
        match spaced.result {
            Ok(_) => Self::finish_script(symbol, spaced.state.parse_group(limit)),
            Err(e) => Parsed { state: spaced.state, result: Err(e) },
        }
    }

    /// Looks whether a script follows: passes over spaces and, if `^` or `_`
    /// comes, uses it up. A second script of a kind is an error.
    pub open spec fn scripts_head(self, has_sup: bool, has_sub: bool) -> Parsed<
        Option<TokenView>,
    > {
        let spaced = self.consume_spaces();
        match spaced.result {
            Ok(_) => {
                let fetched = spaced.state.fetch();
                match fetched.result {
                    Ok(lex) => if lex.text == "^"@ || lex.text == "_"@ {
                        if (lex.text == "^"@ && has_sup) || (lex.text == "_"@ && has_sub) {
                            fetched.state.fail(
                                ParseErrorKind::DoubleScript,
                                if lex.text == "^"@ {
                                    "Double superscript"@
                                } else {
                                    "Double subscript"@
                                },
                                Some(lex),
                            )
                        } else {
                            fetched.state.consume().done(Some(lex))
                        }
                    } else {
                        fetched.state.done(None)
                    },
                    Err(e) => Parsed { state: fetched.state, result: Err(e) },
                }
            },
            Err(e) => Parsed { state: spaced.state, result: Err(e) },
        }
    }

    /// Reads the superscripts and subscripts that follow the base `base`;
    /// `sup` and `sub` are those read already. Gives the base with its
    /// scripts, or the base alone if it has none.
    #[verifier::opaque]
    pub open spec fn parse_scripts(
        self,
        limit: Measure,
        base: Option<NodeView>,
        sup: Option<NodeView>,
        sub: Option<NodeView>,
    ) -> Parsed<Option<NodeView>>
        decreases limit.fuel, limit.pending, 5int, 0nat,
        when self.wf() && self.measure().within(limit)
    {
        let head = self.scripts_head(sup is Some, sub is Some);
        match head.result {
            Ok(Some(lex)) => {
                proof {
                    lemma_scripts_head_measure(self, sup is Some, sub is Some);
                }
                let script = head.state.parse_script(head.state.measure(), lex);
                match script.result {
                    Ok(node) => if script.state.wf() && script.state.measure().below(limit) {
                        proof {
                            lemma_pending_bounds(script.state);
                        }
                        script.state.parse_scripts(
                            script.state.measure(),
                            base,
                            if lex.text == "^"@ {
                                Some(node)
                            } else {
                                sup
                            },
                            if lex.text == "^"@ {
                                sub
                            } else {
                                Some(node)
                            },
                        )
                    } else {
                        script.state.done(base)
                    },
                    Err(e) => Parsed { state: script.state, result: Err(e) },
                }
            },
            Ok(None) => head.state.done(with_scripts(self.mode, base, sup, sub)),
            Err(e) => Parsed { state: head.state, result: Err(e) },
        }
    }

    /// Reads one atom: a group, a command or a symbol, in math mode with the
    /// superscripts and subscripts that follow it.
    #[verifier::opaque]
    pub open spec fn parse_atom(self, limit: Measure) -> Parsed<Option<NodeView>>
        decreases limit.fuel, limit.pending, 6int, 0nat,
        when self.wf() && self.measure().within(limit)
    {
        let base = self.parse_group(limit);
        match base.result {
            Ok(node) => if self.mode == Mode::Text {
                base
            } else {
                base.state.parse_scripts(limit, node, None, None)
            },
            Err(e) => base,
        }
    }

    /// Looks whether the expression ends here: in math mode passes over
    /// spaces, then tells whether the lookahead is one of the tokens that
    /// end every expression, `break_on_token_text` or, with
    /// `break_on_infix`, an infix operator.
    pub open spec fn atoms_head(
        self,
        break_on_infix: bool,
        break_on_token_text: Option<Seq<char>>,
    ) -> Parsed<bool> {
        let spaced = if self.mode == Mode::Math {
            self.consume_spaces()
        } else {
            self.done(())
        };
        match spaced.result {
            Ok(_) => {
                let fetched = spaced.state.fetch();
                match fetched.result {
                    Ok(lex) => fetched.state.done(
                        is_end_of_expression(lex.text) || break_on_token_text == Some(lex.text)
                            || (break_on_infix && is_infix(lex.text)),
                    ),
                    Err(e) => Parsed { state: fetched.state, result: Err(e) },
                }
            },
            Err(e) => Parsed { state: spaced.state, result: Err(e) },
        }
    }

    /// `body` with the atom `node` behind it; a marker that leaves nothing in
    /// the tree is left out.
    pub open spec fn extended(body: Seq<NodeView>, node: NodeView) -> Seq<NodeView> {
        if node is Internal {
            body
        } else {
            body.push(node)
        }
    }

    /// Reads atoms and appends them to `body` until a token ends the
    /// expression: one of the fixed set, `break_on_token_text` or, with
    /// `break_on_infix`, an infix operator; or until what comes is no atom.
    /// In math mode spaces are passed over.
    #[verifier::opaque]
    pub open spec fn parse_atoms(
        self,
        limit: Measure,
        break_on_infix: bool,
        break_on_token_text: Option<Seq<char>>,
        body: Seq<NodeView>,
    ) -> Parsed<Seq<NodeView>>
        decreases limit.fuel, limit.pending, 7int, 0nat,
        when self.wf() && self.measure().within(limit)
    {
        let head = self.atoms_head(break_on_infix, break_on_token_text);
        match head.result {
            Ok(stop) => if stop {
                head.state.done(body)
            } else {
                let atom = head.state.parse_atom(limit);
                match atom.result {
                    Ok(Some(node)) => if atom.state.wf() && atom.state.measure().below(limit) {
                        proof {
                            lemma_pending_bounds(atom.state);
                        }
                        atom.state.parse_atoms(
                            atom.state.measure(),
                            break_on_infix,
                            break_on_token_text,
                            Self::extended(body, node),
                        )
                    } else {
                        atom.state.done(body)
                    },
                    Ok(None) => atom.state.done(body),
                    Err(e) => Parsed { state: atom.state, result: Err(e) },
                }
            },
            Err(e) => Parsed { state: head.state, result: Err(e) },
        }
    }

    /// What follows the atoms of an expression: the ligatures of text mode
    /// are formed and an infix operator is rewritten.
    pub open spec fn finish_expression(mode: Mode, atoms: Parsed<Seq<NodeView>>) -> Parsed<
        Seq<NodeView>,
    > {
        match atoms.result {
            Ok(body) => Parsed {
                state: atoms.state,
                result: handle_infix_nodes(
                    mode,
                    if mode == Mode::Text {
                        form_ligatures(body)
                    } else {
                        body
                    },
                    atoms.state.gullet.lexer,
                ),
            },
            Err(e) => Parsed { state: atoms.state, result: Err(e) },
        }
    }

    /// Parses an expression: a list of atoms, with the ligatures of text mode
    /// formed and an infix operator rewritten.
    #[verifier::opaque]
    pub open spec fn parse_expression(
        self,
        limit: Measure,
        break_on_infix: bool,
        break_on_token_text: Option<Seq<char>>,
    ) -> Parsed<Seq<NodeView>>
        decreases limit.fuel, limit.pending, 7int, 1nat,
        when self.wf() && self.measure().within(limit)
    {
        Self::finish_expression(
            self.mode,
            self.parse_atoms(limit, break_on_infix, break_on_token_text, Seq::empty()),
        )
    }

    /// Parses a whole input: an expression in a group of its own (unless the
    /// settings ask for the global group), up to the end of the input.
    /// Whatever happens, no group stays open.
    #[verifier::opaque]
    pub open spec fn parse(self) -> Parsed<Seq<NodeView>> {
        let grouped = if self.settings.global_group {
            self
        } else {
            self.with_gullet(self.gullet.begin_group())
        };
        let started = if self.settings.color_is_text_color {
            grouped.with_gullet(
                GulletView {
                    macros: grouped.gullet.macros.insert(
                        "\\color"@,
                        MacroDefinitionView::Text("\\textcolor"@),
                    ),
                    ..grouped.gullet
                },
            )
        } else {
            grouped
        };
        let parsed = started.parse_expression(started.measure(), false, None);
        let finished: Parsed<Seq<NodeView>> = match parsed.result {
            Ok(body) => {
                let ended = parsed.state.expect(eof_text(), true);
                match ended.result {
                    Ok(_) => if self.settings.global_group {
                        ended.state.done(body)
                    } else {
                        let closed = ended.state.gullet.end_group();
                        Parsed {
                            state: ended.state.with_gullet(closed.state),
                            result: match closed.result {
                                Ok(_) => Ok(body),
                                Err(e) => Err(e),
                            },
                        }
                    },
                    Err(e) => Parsed { state: ended.state, result: Err(e) },
                }
            },
            Err(e) => Parsed { state: parsed.state, result: Err(e) },
        };
        Parsed {
            state: finished.state.with_gullet(finished.state.gullet.end_groups()),
            result: finished.result,
        }
    }

    /// Parses `tokens`, given in stack order, as a job of its own: the
    /// lookahead is set aside, the tokens are put on the stack above a
    /// closing brace, an expression is parsed up to that brace, and the
    /// lookahead is restored.
    #[verifier::opaque]
    pub open spec fn subparse(self, tokens: Seq<TokenView>) -> Parsed<Seq<NodeView>> {
        let started = self.consume().with_gullet(
            self.gullet.push(TokenView::plain("}"@, None)).push_all(tokens),
        );
        let parsed = started.parse_expression(started.measure(), false, None);
        match parsed.result {
            Ok(body) => {
                let closed = parsed.state.expect("}"@, true);
                match closed.result {
                    Ok(_) => (ParserView { next_token: self.next_token, ..closed.state }).done(
                        body,
                    ),
                    Err(e) => Parsed { state: closed.state, result: Err(e) },
                }
            },
            Err(e) => Parsed { state: parsed.state, result: Err(e) },
        }
    }
}

pub proof fn lemma_scripts_are_not_eof()
    ensures
        "^"@ != eof_text(),
        "_"@ != eof_text(),
        "^"@ != "_"@,
{
    reveal_strlit("^");
    reveal_strlit("_");
    reveal_strlit("EOF");
    assert("^"@.len() != "EOF"@.len());
    assert("_"@.len() != "EOF"@.len());
    assert("^"@[0] != "_"@[0]);
}

pub proof fn lemma_hash_is_not_eof()
    ensures
        "#"@ != eof_text(),
{
    reveal_strlit("#");
    reveal_strlit("EOF");
    assert("#"@.len() != "EOF"@.len());
}

/// The end marker is no command and opens no group.
pub proof fn lemma_commands_are_not_eof()
    ensures
        function_spec(eof_text()) is None,
        "{"@ != eof_text(),
        "\\begingroup"@ != eof_text(),
{
    reveal_strlit("EOF");
    reveal_strlit("{");
    reveal_strlit("\\begingroup");
    reveal_strlit("\\frac");
    reveal_strlit("\\dfrac");
    reveal_strlit("\\tfrac");
    reveal_strlit("\\binom");
    reveal_strlit("\\dbinom");
    reveal_strlit("\\tbinom");
    reveal_strlit("\\\\atopfrac");
    reveal_strlit("\\\\bracefrac");
    reveal_strlit("\\\\brackfrac");
    reveal_strlit("\\\\abovefrac");
    reveal_strlit("\\over");
    reveal_strlit("\\choose");
    reveal_strlit("\\atop");
    reveal_strlit("\\brace");
    reveal_strlit("\\brack");
    reveal_strlit("\\def");
    reveal_strlit("\\gdef");
    reveal_strlit("\\tag");
    reveal_strlit("\\relax");
    reveal_strlit("\\left");
    reveal_strlit("\\right");
    reveal_strlit("\\middle");
    reveal_strlit("\\text");
    assert("\\text"@.len() == 5);
    assert("\\left"@.len() == 5);
    assert("\\right"@.len() == 6);
    assert("\\middle"@.len() == 7);
    assert("EOF"@.len() == 3);
    assert("EOF"@[0] == 'E');
    assert("{"@.len() == 1);
    assert("\\begingroup"@.len() == 11);
    assert("\\frac"@.len() == 5);
    assert("\\dfrac"@.len() == 6);
    assert("\\tfrac"@.len() == 6);
    assert("\\binom"@.len() == 6);
    assert("\\dbinom"@.len() == 7);
    assert("\\tbinom"@.len() == 7);
    assert("\\\\atopfrac"@.len() == 10);
    assert("\\\\bracefrac"@.len() == 11);
    assert("\\\\brackfrac"@.len() == 11);
    assert("\\\\abovefrac"@.len() == 11);
    assert("\\over"@.len() == 5);
    assert("\\choose"@.len() == 7);
    assert("\\atop"@.len() == 5);
    assert("\\brace"@.len() == 6);
    assert("\\brack"@.len() == 6);
    assert("\\def"@.len() == 4);
    assert("\\gdef"@.len() == 5);
    assert("\\tag"@.len() == 4);
    assert("\\relax"@.len() == 6);
}

/// A token that names a command, opens a group or shows a symbol counts in
/// the measure of what is left to read.
pub proof fn lemma_weight_of_commands(token: TokenView)
    ensures
        function_spec(token.text) is Some ==> weight(token) == 1,
        token.text == "{"@ || token.text == "\\begingroup"@ ==> weight(token) == 1,
        symbol(Mode::Math, token.text) is Some ==> weight(token) == 1,
        symbol(Mode::Text, token.text) is Some ==> weight(token) == 1,
        token.text == " "@ || token.text == "#"@ ==> weight(token) == 1,
        token.text == "^"@ || token.text == "_"@ ==> weight(token) == 1,
{
    lemma_scripts_are_not_eof();
    lemma_commands_are_not_eof();
    lemma_symbols_are_not_eof();
    lemma_space_is_not_eof();
    lemma_hash_is_not_eof();
}

/// Looking for a command does not raise the measure, and lowers it where a
/// command is found.
pub proof fn lemma_function_head_measure(s: ParserView)
    requires
        s.wf(),
    ensures
        ({
            let r = s.function_head();
            &&& r.state.wf()
            &&& r.state.pending() >= 0
            &&& r.state.gullet.fuel() >= 0
            &&& r.state.mode == s.mode
            &&& r.result is Ok ==> r.state.measure().within(s.measure())
            &&& (r.result matches Ok(found) && found is Some) ==> r.state.measure().below(
                s.measure(),
            )
        }),
{
    lemma_fetch_measure(s);
    lemma_pending_bounds(s.fetch().state);
    let fetched = s.fetch();
    match fetched.result {
        Ok(token) => {
            lemma_weight_of_commands(token);
            lemma_pending_bounds(fetched.state.consume());
        },
        Err(e) => {},
    }
}

/// Looking for a script does not raise the measure, and lowers it where a
/// script follows.
pub proof fn lemma_scripts_head_measure(s: ParserView, has_sup: bool, has_sub: bool)
    requires
        s.wf(),
    ensures
        ({
            let r = s.scripts_head(has_sup, has_sub);
            &&& r.state.wf()
            &&& r.state.pending() >= 0
            &&& r.state.gullet.fuel() >= 0
            &&& r.result is Ok ==> r.state.measure().within(s.measure())
            &&& (r.result matches Ok(found) && found is Some) ==> r.state.measure().below(
                s.measure(),
            )
        }),
{
    lemma_consume_spaces_measure(s);
    let spaced = s.consume_spaces();
    lemma_pending_bounds(spaced.state);
    if spaced.result is Ok {
        lemma_fetch_measure(spaced.state);
        let fetched = spaced.state.fetch();
        lemma_pending_bounds(fetched.state);
        match fetched.result {
            Ok(lex) => {
                lemma_weight_of_commands(lex);
                lemma_pending_bounds(fetched.state.consume());
            },
            Err(e) => {},
        }
    }
}

/// Looking for the end of an expression does not raise the measure.
pub proof fn lemma_atoms_head_measure(
    s: ParserView,
    break_on_infix: bool,
    break_on_token_text: Option<Seq<char>>,
)
    requires
        s.wf(),
    ensures
        ({
            let r = s.atoms_head(break_on_infix, break_on_token_text);
            &&& r.state.wf()
            &&& r.state.pending() >= 0
            &&& r.state.gullet.fuel() >= 0
            &&& r.result is Ok ==> r.state.measure().within(s.measure())
        }),
{
    lemma_pending_bounds(s);
    if s.mode == Mode::Math {
        lemma_consume_spaces_measure(s);
        lemma_pending_bounds(s.consume_spaces().state);
        if s.consume_spaces().result is Ok {
            lemma_fetch_measure(s.consume_spaces().state);
            lemma_pending_bounds(s.consume_spaces().state.fetch().state);
        }
    } else {
        lemma_fetch_measure(s);
        lemma_pending_bounds(s.fetch().state);
    }
}

/// What reading arguments comes to.
pub proof fn lemma_parse_arguments(s: ParserView, limit: Measure, count: nat, acc: Seq<NodeView>)
    requires
        s.wf(),
        s.measure().within(limit),
    ensures
        count == 0 ==> s.parse_arguments(limit, count, acc) == s.done(acc),
        count > 0 && s.nesting >= MAX_NESTING ==> s.parse_arguments(limit, count, acc)
            == s.fail::<Seq<NodeView>>(
            ParseErrorKind::NestingTooDeep,
            "Arguments and groups nest too deep"@,
            None,
        ),
        count > 0 && s.nesting < MAX_NESTING ==> ({
            let scanned = s.gullet.scan_argument(false);
            match scanned.result {
                Ok(spanned) => {
                    let opened = s.argument_opened(scanned.state);
                    let arg = s.finish_argument(
                        spanned,
                        opened.parse_expression(limit, false, Some(eof_text())),
                    );
                    &&& opened.wf()
                    &&& opened.measure().within(s.measure())
                    &&& match arg.result {
                        Ok(node) => arg.state.wf() && arg.state.measure().within(limit)
                            ==> s.parse_arguments(limit, count, acc) == arg.state.parse_arguments(
                            limit,
                            (count - 1) as nat,
                            acc.push(node),
                        ),
                        Err(e) => s.parse_arguments(limit, count, acc) == (Parsed::<
                            Seq<NodeView>,
                        > { state: arg.state, result: Err(e) }),
                    }
                },
                Err(e) => s.parse_arguments(limit, count, acc) == (Parsed::<Seq<NodeView>> {
                    state: s.with_gullet(scanned.state),
                    result: Err(e),
                }),
            }
        }),
{
    reveal(ParserView::parse_arguments);
    reveal(ParserView::parse_expression);
    crate::gullet::lemma_scan_argument_pending(s.gullet, false);
    lemma_pending_bounds(s);
}

/// What reading delimited content comes to.
pub proof fn lemma_parse_left_right(s: ParserView, limit: Measure, command: TokenView)
    requires
        s.wf(),
        s.measure().within(limit),
    ensures
        ({
            let left = s.parse_delimiter(command);
            match left.result {
                Ok(left_delim) => if s.nesting >= MAX_NESTING || s.leftright_depth
                    >= MAX_NESTING {
                    s.parse_left_right(limit, command) == left.state.fail::<Option<NodeView>>(
                        ParseErrorKind::NestingTooDeep,
                        "Arguments and groups nest too deep"@,
                        Some(command),
                    )
                } else {
                    let opened = s.left_right_opened(left.state);
                    &&& opened.wf()
                    &&& opened.measure().below(s.measure())
                    &&& opened.pending() >= 0
                    &&& opened.gullet.fuel() >= 0
                    &&& s.parse_left_right(limit, command) == s.finish_left_right(
                        command,
                        left_delim,
                        opened.parse_expression(opened.measure(), false, None),
                    )
                },
                Err(e) => s.parse_left_right(limit, command) == (Parsed::<Option<NodeView>> {
                    state: left.state,
                    result: Err(e),
                }),
            }
        }),
{
    reveal(ParserView::parse_left_right);
    reveal(ParserView::parse_expression);
    lemma_parse_delimiter_measure(s, command);
    let left = s.parse_delimiter(command);
    lemma_pending_bounds(s.left_right_opened(left.state));
}

/// What handling a command comes to.
pub proof fn lemma_handle_function(
    s: ParserView,
    limit: Measure,
    f: crate::functions::FunctionSpec,
    token: TokenView,
)
    requires
        s.wf(),
        s.measure().within(limit),
    ensures
        s.handle_function(limit, f, token) == match f.kind {
            FunctionKind::Left => s.parse_left_right(limit, token),
            FunctionKind::Genfrac => s.finish_call(
                token,
                s.parse_arguments(limit, f.num_args as nat, Seq::empty()),
            ),
            FunctionKind::Text => s.finish_text(
                s.switch_mode(Mode::Text).parse_arguments(limit, 1, Seq::empty()),
            ),
            _ => s.handle_simple(f, token),
        },
{
    reveal(ParserView::handle_function);
    reveal(ParserView::parse_left_right);
    reveal(ParserView::parse_arguments);
}

/// What reading a command comes to.
pub proof fn lemma_parse_function(s: ParserView, limit: Measure)
    requires
        s.wf(),
        s.measure().within(limit),
    ensures
        ({
            let head = s.function_head();
            s.parse_function(limit) == match head.result {
                Ok(Some((f, token))) => head.state.handle_function(head.state.measure(), f, token),
                Ok(None) => head.state.done(None),
                Err(e) => Parsed { state: head.state, result: Err(e) },
            }
        }),
{
    reveal(ParserView::parse_function);
    reveal(ParserView::handle_function);
    lemma_function_head_measure(s);
}

/// What reading a group comes to.
pub proof fn lemma_parse_braced(s: ParserView, limit: Measure, first: TokenView)
    requires
        s.wf(),
        s.measure().within(limit),
        s.next_token == Some(first),
        weight(first) == 1,
    ensures
        s.nesting >= MAX_NESTING ==> s.parse_braced(limit, first) == s.consume().fail::<
            Option<NodeView>,
        >(ParseErrorKind::NestingTooDeep, "Arguments and groups nest too deep"@, Some(first)),
        s.nesting < MAX_NESTING ==> s.parse_braced(limit, first) == s.finish_braced(
            first,
            s.opened().parse_expression(
                s.opened().measure(),
                false,
                Some(
                    if first.text == "{"@ {
                        "}"@
                    } else {
                        "\\endgroup"@
                    },
                ),
            ),
        ),
        s.opened().wf(),
        s.opened().measure().below(s.measure()),
        s.opened().pending() >= 0,
        s.opened().gullet.fuel() >= 0,
{
    reveal(ParserView::parse_braced);
    reveal(ParserView::parse_expression);
    lemma_pending_bounds(s);
    lemma_pending_bounds(s.opened());
}

/// What reading a command or a symbol comes to.
pub proof fn lemma_parse_plain(s: ParserView, limit: Measure, first: TokenView)
    requires
        s.wf(),
        s.measure().within(limit),
    ensures
        s.parse_plain(limit, first) == ParserView::finish_plain(first, s.parse_function(limit)),
{
    reveal(ParserView::parse_plain);
    reveal(ParserView::parse_function);
}

/// What reading a group, a command or a symbol comes to.
pub proof fn lemma_parse_group(s: ParserView, limit: Measure)
    requires
        s.wf(),
        s.measure().within(limit),
    ensures
        ({
            let fetched = s.fetch();
            &&& fetched.state.wf()
            &&& fetched.result is Ok ==> fetched.state.measure().within(s.measure())
            &&& s.parse_group(limit) == match fetched.result {
                Ok(first) => if first.text == "{"@ || first.text == "\\begingroup"@ {
                    fetched.state.parse_braced(limit, first)
                } else {
                    fetched.state.parse_plain(limit, first)
                },
                Err(e) => Parsed { state: fetched.state, result: Err(e) },
            }
        }),
{
    reveal(ParserView::parse_group);
    reveal(ParserView::parse_braced);
    reveal(ParserView::parse_plain);
    lemma_fetch_measure(s);
    match s.fetch().result {
        Ok(first) => {
            lemma_weight_of_commands(first);
        },
        Err(e) => {},
    }
}

/// What reading a script comes to.
pub proof fn lemma_parse_script(s: ParserView, limit: Measure, symbol: TokenView)
    requires
        s.wf(),
        s.measure().within(limit),
    ensures
        ({
            let spaced = s.consume_spaces();
            &&& spaced.state.wf()
            &&& spaced.result is Ok ==> spaced.state.measure().within(s.measure())
            &&& s.parse_script(limit, symbol) == match spaced.result {
                Ok(_) => ParserView::finish_script(symbol, spaced.state.parse_group(limit)),
                Err(e) => Parsed { state: spaced.state, result: Err(e) },
            }
        }),
{
    reveal(ParserView::parse_script);
    reveal(ParserView::parse_group);
    lemma_consume_spaces_measure(s);
}

/// What reading scripts comes to.
pub proof fn lemma_parse_scripts(
    s: ParserView,
    limit: Measure,
    base: Option<NodeView>,
    sup: Option<NodeView>,
    sub: Option<NodeView>,
)
    requires
        s.wf(),
        s.measure().within(limit),
    ensures
        ({
            let head = s.scripts_head(sup is Some, sub is Some);
            match head.result {
                Ok(Some(lex)) => {
                    let script = head.state.parse_script(head.state.measure(), lex);
                    &&& head.state.wf()
                    &&& head.state.measure().below(s.measure())
                    &&& head.state.pending() >= 0
                    &&& head.state.gullet.fuel() >= 0
                    &&& lex.text == "^"@ || lex.text == "_"@
                    &&& match script.result {
                        Ok(node) => script.state.wf() && script.state.measure().below(limit)
                            ==> s.parse_scripts(limit, base, sup, sub)
                            == script.state.parse_scripts(
                            script.state.measure(),
                            base,
                            if lex.text == "^"@ {
                                Some(node)
                            } else {
                                sup
                            },
                            if lex.text == "^"@ {
                                sub
                            } else {
                                Some(node)
                            },
                        ),
                        Err(e) => s.parse_scripts(limit, base, sup, sub) == (Parsed::<
                            Option<NodeView>,
                        > { state: script.state, result: Err(e) }),
                    }
                },
                Ok(None) => s.parse_scripts(limit, base, sup, sub) == head.state.done(
                    with_scripts(s.mode, base, sup, sub),
                ) && head.state.measure().within(s.measure()),
                Err(e) => s.parse_scripts(limit, base, sup, sub) == (Parsed::<Option<NodeView>> {
                    state: head.state,
                    result: Err(e),
                }),
            }
        }),
{
    reveal(ParserView::parse_scripts);
    reveal(ParserView::parse_script);
    lemma_scripts_head_measure(s, sup is Some, sub is Some);
    let head = s.scripts_head(sup is Some, sub is Some);
    match head.result {
        Ok(Some(lex)) => {
            let script = head.state.parse_script(head.state.measure(), lex);
            if script.state.wf() {
                lemma_pending_bounds(script.state);
            }
        },
        _ => {},
    }
}

/// What reading an atom comes to.
pub proof fn lemma_parse_atom(s: ParserView, limit: Measure)
    requires
        s.wf(),
        s.measure().within(limit),
    ensures
        ({
            let base = s.parse_group(limit);
            match base.result {
                Ok(node) => if s.mode == Mode::Text {
                    s.parse_atom(limit) == base
                } else {
                    base.state.wf() && base.state.measure().within(limit) ==> s.parse_atom(limit)
                        == base.state.parse_scripts(limit, node, None, None)
                },
                Err(e) => s.parse_atom(limit) == base,
            }
        }),
{
    reveal(ParserView::parse_atom);
    reveal(ParserView::parse_group);
    reveal(ParserView::parse_scripts);
}

/// What reading atoms comes to.
pub proof fn lemma_parse_atoms(
    s: ParserView,
    limit: Measure,
    break_on_infix: bool,
    break_on_token_text: Option<Seq<char>>,
    body: Seq<NodeView>,
)
    requires
        s.wf(),
        s.measure().within(limit),
    ensures
        ({
            let head = s.atoms_head(break_on_infix, break_on_token_text);
            match head.result {
                Ok(stop) => if stop {
                    s.parse_atoms(limit, break_on_infix, break_on_token_text, body)
                        == head.state.done(body)
                } else {
                    let atom = head.state.parse_atom(limit);
                    &&& head.state.wf()
                    &&& head.state.measure().within(s.measure())
                    &&& match atom.result {
                        Ok(Some(node)) => atom.state.wf() && atom.state.measure().below(limit)
                            ==> s.parse_atoms(limit, break_on_infix, break_on_token_text, body)
                            == atom.state.parse_atoms(
                            atom.state.measure(),
                            break_on_infix,
                            break_on_token_text,
                            ParserView::extended(body, node),
                        ),
                        Ok(None) => s.parse_atoms(
                            limit,
                            break_on_infix,
                            break_on_token_text,
                            body,
                        ) == atom.state.done(body),
                        Err(e) => s.parse_atoms(limit, break_on_infix, break_on_token_text, body)
                            == (Parsed::<Seq<NodeView>> { state: atom.state, result: Err(e) }),
                    }
                },
                Err(e) => s.parse_atoms(limit, break_on_infix, break_on_token_text, body)
                    == (Parsed::<Seq<NodeView>> { state: head.state, result: Err(e) }),
            }
        }),
{
    reveal(ParserView::parse_atoms);
    reveal(ParserView::parse_atom);
    lemma_atoms_head_measure(s, break_on_infix, break_on_token_text);
    let head = s.atoms_head(break_on_infix, break_on_token_text);
    if head.result is Ok {
        let atom = head.state.parse_atom(limit);
        if atom.state.wf() {
            lemma_pending_bounds(atom.state);
        }
    }
}

/// What parsing an expression comes to.
pub proof fn lemma_parse_expression(
    s: ParserView,
    limit: Measure,
    break_on_infix: bool,
    break_on_token_text: Option<Seq<char>>,
)
    requires
        s.wf(),
        s.measure().within(limit),
    ensures
        s.parse_expression(limit, break_on_infix, break_on_token_text)
            == ParserView::finish_expression(
            s.mode,
            s.parse_atoms(limit, break_on_infix, break_on_token_text, Seq::empty()),
        ),
{
    reveal(ParserView::parse_expression);
    reveal(ParserView::parse_atoms);
}

/// Fetching the lookahead does not raise the measure.
pub proof fn lemma_fetch_measure(s: ParserView)
    requires
        s.wf(),
    ensures
        ({
            let r = s.fetch();
            &&& r.state.wf()
            &&& r.state.pending() >= 0
            &&& r.state.gullet.pending() >= 0
            &&& r.state.gullet.fuel() >= 0
            &&& s.pending() >= 0
            &&& r.state.gullet.fuel() <= s.gullet.fuel()
            &&& r.state.gullet.same_frame(s.gullet)
            &&& r.state.mode == s.mode
            &&& r.state.settings == s.settings
            &&& r.state.leftright_depth == s.leftright_depth
            &&& r.state.nesting == s.nesting
            &&& r.result matches Ok(token) ==> r.state.next_token == Some(token)
                && r.state.measure().within(s.measure())
        }),
{
    lemma_expand_next_token_measure(s.gullet);
    lemma_pending_bounds(s);
    lemma_pending_bounds(s.fetch().state);
}

/// Using up the spaces at the front does not raise the measure.
pub proof fn lemma_consume_spaces_measure(s: ParserView)
    requires
        s.wf(),
    ensures
        ({
            let r = s.consume_spaces();
            &&& r.state.wf()
            &&& r.state.mode == s.mode
            &&& r.state.nesting == s.nesting
            &&& r.state.leftright_depth == s.leftright_depth
            &&& r.result is Ok ==> r.state.measure().within(s.measure())
        }),
    decreases s.gullet.fuel(), s.pending(),
{
    reveal(ParserView::consume_spaces);
    lemma_fetch_measure(s);
    lemma_space_is_not_eof();
    let fetched = s.fetch();
    match fetched.result {
        Ok(token) => {
            if token.text == " "@ {
                lemma_pending_bounds(fetched.state.consume());
                lemma_consume_spaces_measure(fetched.state.consume());
            }
        },
        Err(e) => {},
    }
}

/// Reading a delimiter lowers the measure.
pub proof fn lemma_parse_delimiter_measure(s: ParserView, command: TokenView)
    requires
        s.wf(),
    ensures
        ({
            let r = s.parse_delimiter(command);
            &&& r.state.wf()
            &&& r.state.pending() >= 0
            &&& r.state.gullet.fuel() >= 0
            &&& r.state.mode == s.mode
            &&& r.state.nesting == s.nesting
            &&& r.state.leftright_depth == s.leftright_depth
            &&& r.result is Ok ==> r.state.measure().below(s.measure())
        }),
{
    reveal(ParserView::parse_delimiter);
    lemma_consume_spaces_measure(s);
    let spaced = s.consume_spaces();
    lemma_pending_bounds(spaced.state);
    if spaced.result is Ok {
        lemma_fetch_measure(spaced.state);
        lemma_symbols_are_not_eof();
        let fetched = spaced.state.fetch();
        lemma_pending_bounds(fetched.state);
        if fetched.result is Ok {
            lemma_pending_bounds(fetched.state.consume());
        }
    }
}

/// The weight of what is left is never negative.
pub proof fn lemma_pending_bounds(s: ParserView)
    requires
        s.wf(),
    ensures
        s.pending() >= 0,
        s.gullet.pending() >= 0,
        s.gullet.fuel() >= 0,
{
    crate::gullet::lemma_pop_pending(s.gullet);
}

} // verus!
