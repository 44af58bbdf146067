//! The parser: reads the expanded token stream and builds the syntax tree.
//!
//! The parser has a mode, math or text, which decides which symbols and
//! commands it knows. It looks one token ahead. The main functions (the
//! `parse_...` ones) each read one construct from the token stream and
//! return its node; the `handle_...` ones rework what was read.

use vstd::prelude::*;
use crate::expansion::digit_of;
use crate::functions::{FunctionKind, delimits, lookup_function, replacement_of};
use crate::grammar::{
    MAX_NESTING, ParseSettings, ParserView, lemma_atoms_head_measure, lemma_fetch_measure,
    lemma_function_head_measure, lemma_handle_function, lemma_hash_is_not_eof,
    lemma_parse_arguments, lemma_parse_atom, lemma_parse_atoms, lemma_parse_braced,
    lemma_parse_delimiter_measure, lemma_parse_expression, lemma_parse_function,
    lemma_parse_group, lemma_parse_left_right, lemma_parse_plain, lemma_parse_script,
    lemma_parse_scripts, lemma_pending_bounds, lemma_scripts_head_measure,
    lemma_weight_of_commands, with_scripts,
};
use crate::gullet::{
    GulletView, Measure, lemma_consume_arg_pending, lemma_pop_decreases, lemma_pop_pending,
    lemma_scan_argument_pending, lemma_space_is_not_eof,
};
use crate::infix::{call, nodes_outcome, optional_node_outcome, rewrite_infix};
use crate::lexer::LexerView;
use crate::ligatures::ligatures;
use crate::macro_expander::{MacroExpander, token_outcome, unit_outcome};
use crate::namespace::{MacroDefinition, MacroExpansion, NamespaceView, with_globals};
use crate::parse_error::{ParseError, ParseErrorKind, ParseErrorView};
use crate::parse_node::{
    node_view, AnyParseNode, Atom, InfixParseNode, InternalParseNode, LeftRightParseNode,
    LeftRightRightParseNode, MathOrdParseNode, MiddleParseNode, NodeView, OrdGroupParseNode,
    SpacingParseNode, SupSubParseNode, TextOrdParseNode, TextParseNode, lemma_group_body,
    lemma_group_view, lemma_left_right_view, lemma_node_views_push, lemma_text_view,
    node_views, token_view,
};
use crate::settings::Settings;
use crate::source_location::SourceLocation;
use crate::symbols::{SymbolGroup, lookup_symbol};
use crate::token::{Token, token_views};

verus! {

/// The two modes of TeX: a math-y environment or a text-y one.
#[derive(Clone, Copy, Debug, PartialEq, Eq, Structural)]
pub enum Mode {
    Math,
    Text,
}

/// The settings that parsing reads.
pub open spec fn parse_settings(settings: &Settings) -> ParseSettings {
    ParseSettings {
        display_mode: settings.display_mode,
        color_is_text_color: settings.color_is_text_color,
        global_group: settings.global_group,
    }
}

/// The state of a parser at the start of `input`.
pub open spec fn start(input: Seq<char>, settings: &Settings) -> ParserView {
    ParserView {
        gullet: GulletView {
            stack: Seq::empty(),
            lexer: LexerView { input, pos: 0, id: Some(0usize) },
            macros: NamespaceView {
                base: with_globals(crate::functions::builtin_macro_map(), settings.macros@),
                overlays: Seq::empty(),
            },
            expansion_count: 0,
            max_expand: settings.max_expand as nat,
            mode: Mode::Math,
        },
        mode: Mode::Math,
        leftright_depth: 0,
        nesting: 0,
        next_token: None,
        settings: parse_settings(settings),
    }
}

/// What `break_on_token_text` stands for.
pub open spec fn break_view(text: Option<&str>) -> Option<Seq<char>> {
    match text {
        Some(t) => Some(t@),
        None => None,
    }
}

pub struct Parser<'a> {
    mode: Mode,
    gullet: MacroExpander,
    settings: &'a Settings,
    leftright_depth: usize,
    nesting: usize,
    next_token: Option<Token>,
}

impl<'a> View for Parser<'a> {
    type V = ParserView;

    closed spec fn view(&self) -> ParserView {
        ParserView {
            gullet: self.gullet@,
            mode: self.mode,
            leftright_depth: self.leftright_depth as nat,
            nesting: self.nesting as nat,
            next_token: token_view(self.next_token),
            settings: parse_settings(self.settings),
        }
    }
}

impl<'a> Parser<'a> {
    /// The state of a parser is always well formed.
    pub proof fn lemma_wf(&self)
        ensures
            self@.wf(),
            self@.pending() >= 0,
            self@.gullet.fuel() >= 0,
    {
        self.gullet.lemma_wf();
        lemma_pending_bounds(self@);
    }

    /// A parser in math mode at the start of `input`.
    pub fn new(input: &str, settings: &'a Settings) -> (parser: Parser<'a>)
        ensures
            parser@ == start(input@, settings),
    {
        Parser {
            mode: Mode::Math,
            gullet: MacroExpander::new(input, settings, Mode::Math),
            settings,
            leftright_depth: 0,
            nesting: 0,
            next_token: None,
        }
    }

    /// The expander that the parser reads from.
    pub fn gullet(&self) -> (gullet: &MacroExpander)
        ensures
            gullet@ == self@.gullet,
    {
        &self.gullet
    }

    /// The mode that the parser is in.
    pub fn mode(&self) -> (mode: Mode)
        ensures
            mode == self@.mode,
    {
        self.mode
    }

    /// Takes the macro `name` out of every layer.
    pub fn undefine(&mut self, name: &str)
        ensures
            final(self)@ == old(self)@.with_gullet(
                GulletView {
                    macros: old(self)@.gullet.macros.remove(name@),
                    ..old(self)@.gullet
                },
            ),
    {
        self.gullet.undefine(name);
    }

    /// Checks that the lookahead is `text`, and with `consume` uses it up.
    pub fn expect(&mut self, text: &str, consume: bool) -> (r: Result<(), ParseError>)
        ensures
            final(self)@ == old(self)@.expect(text@, consume).state,
            unit_outcome(r) == old(self)@.expect(text@, consume).result,
    {
        let token = match self.fetch() {
            Ok(token) => token,
            Err(e) => {
                return Err(e);
            },
        };
        if !token.is(text) {
            let message = String::from_str("Expected '").concat(text).concat("', got '").concat(
                token.text.as_str(),
            ).concat("'");
            return Err(
                ParseError::new(
                    ParseErrorKind::UnexpectedToken,
                    message.as_str(),
                    Some(&token),
                    self.gullet.lexer(),
                ),
            );
        }
        if consume {
            self.consume();
        }
        Ok(())
    }

    /// Considers the current look ahead token as consumed.
    pub fn consume(&mut self)
        ensures
            final(self)@ == old(self)@.consume(),
    {
        self.next_token = None;
    }

    /// Return the current lookahead token, or if there isn't one (at the
    /// beginning, or if the previous lookahead token was consume()d),
    /// fetch the next token as the new lookahead token and return it.
    pub fn fetch(&mut self) -> (r: Result<Token, ParseError>)
        ensures
            final(self)@ == old(self)@.fetch().state,
            token_outcome(r) == old(self)@.fetch().result,
    {
        match &self.next_token {
            Some(token) => {
                return Ok(token.clone());
            },
            None => {},
        }
        let token = match self.gullet.expand_next_token() {
            Ok(token) => token,
            Err(e) => {
                return Err(e);
            },
        };
        self.next_token = Some(token.clone());
        Ok(token)
    }

    /// Switches between "text" and "math" modes.
    pub fn switch_mode(&mut self, new_mode: Mode)
        ensures
            final(self)@ == old(self)@.switch_mode(new_mode),
    {
        self.mode = new_mode;
    }

    /// Uses up the spaces at the front.
    pub fn consume_spaces(&mut self) -> (r: Result<(), ParseError>)
        ensures
            final(self)@ == old(self)@.consume_spaces().state,
            unit_outcome(r) == old(self)@.consume_spaces().result,
            r is Ok ==> final(self)@.measure().within(old(self)@.measure()),
    {
        proof {
            reveal(ParserView::consume_spaces);
        }
        loop
            invariant
                self@.consume_spaces() == old(self)@.consume_spaces(),
                self@.measure().within(old(self)@.measure()),
            decreases self@.gullet.fuel(), self@.pending(),
        {
            proof {
                reveal(ParserView::consume_spaces);
                self.lemma_wf();
                lemma_fetch_measure(self@);
                lemma_space_is_not_eof();
            }
            let token = match self.fetch() {
                Ok(token) => token,
                Err(e) => {
                    return Err(e);
                },
            };
            if token.is(" ") {
                self.consume();
            } else {
                return Ok(());
            }
        }
    }

    /// Reads a symbol, if the lookahead is one in the current mode.
    pub fn parse_symbol(&mut self) -> (r: Result<Option<AnyParseNode>, ParseError>)
        ensures
            final(self)@ == old(self)@.parse_symbol().state,
            optional_node_outcome(r) == old(self)@.parse_symbol().result,
            r is Ok ==> final(self)@.measure().within(old(self)@.measure()),
            (r matches Ok(n) && n is Some) ==> final(self)@.measure().below(old(self)@.measure()),
    {
         proof {
            reveal(node_view);
        }
       proof {
            reveal(ParserView::parse_symbol);
        }
        proof {
            self.lemma_wf();
            lemma_fetch_measure(self@);
        }
        let token = match self.fetch() {
            Ok(token) => token,
            Err(e) => {
                return Err(e);
            },
        };
        proof {
            lemma_weight_of_commands(token@);
        }
        match lookup_symbol(self.mode, token.text.as_str()) {
            Some(group) => {
                self.consume();
                let mode = self.mode;
                let node = if group.is_atom() {
                    AnyParseNode::Atom(
                        Atom { mode, loc: token.loc, family: group, text: token.text },
                    )
                } else {
                    match group {
                        SymbolGroup::MathOrd => AnyParseNode::MathOrd(
                            MathOrdParseNode { mode, loc: token.loc, text: token.text },
                        ),
                        SymbolGroup::Spacing => AnyParseNode::Spacing(
                            SpacingParseNode { mode, loc: token.loc, text: token.text },
                        ),
                        _ => AnyParseNode::TextOrd(
                            TextOrdParseNode { mode, loc: token.loc, text: token.text },
                        ),
                    }
                };
                Ok(Some(node))
            },
            None => Ok(None),
        }
    }

    /// Reads a delimiter after the command `command`.
    fn parse_delimiter(&mut self, command: &Token) -> (r: Result<String, ParseError>)
        ensures
            final(self)@ == old(self)@.parse_delimiter(command@).state,
            match r {
                Ok(d) => old(self)@.parse_delimiter(command@).result == Ok::<
                    Seq<char>,
                    ParseErrorView,
                >(d@),
                Err(e) => old(self)@.parse_delimiter(command@).result == Err::<
                    Seq<char>,
                    ParseErrorView,
                >(e@),
            },
    {
        proof {
            reveal(ParserView::parse_delimiter);
        }
        let mode = self.mode;
        match self.consume_spaces() {
            Ok(_) => {},
            Err(e) => {
                return Err(e);
            },
        }
        let token = match self.fetch() {
            Ok(token) => token,
            Err(e) => {
                return Err(e);
            },
        };
        if lookup_symbol(mode, token.text.as_str()).is_some() && delimits(token.text.as_str()) {
            self.consume();
            Ok(token.text)
        } else {
            let message = String::from_str("Invalid delimiter '").concat(
                token.text.as_str(),
            ).concat("' after '").concat(command.text.as_str()).concat("'");
            Err(
                ParseError::new(
                    ParseErrorKind::InvalidDelimiter,
                    message.as_str(),
                    Some(&token),
                    self.gullet.lexer(),
                ),
            )
        }
    }

    /// Reads what follows `\\left`, up to the delimiter after `\\right`.
    fn parse_left_right(&mut self, Ghost(limit): Ghost<Measure>, command: &Token) -> (r: Result<
        Option<AnyParseNode>,
        ParseError,
    >)
        requires
            old(self)@.measure().within(limit),
            0 <= limit.fuel,
            0 <= limit.pending,
        ensures
            final(self)@ == old(self)@.parse_left_right(limit, command@).state,
            optional_node_outcome(r) == old(self)@.parse_left_right(limit, command@).result,
            r is Ok ==> final(self)@.measure().below(old(self)@.measure()),
        decreases limit.fuel, limit.pending, 2int, 0nat,
    {
        proof {
            self.lemma_wf();
            lemma_parse_left_right(self@, limit, command@);
            lemma_parse_delimiter_measure(self@, command@);
        }
        let mode = self.mode;
        let nesting = self.nesting;
        let depth = self.leftright_depth;
        let left = match self.parse_delimiter(command) {
            Ok(d) => d,
            Err(e) => {
                return Err(e);
            },
        };
        if nesting >= MAX_NESTING || depth >= MAX_NESTING {
            return Err(
                ParseError::new(
                    ParseErrorKind::NestingTooDeep,
                    "Arguments and groups nest too deep",
                    Some(command),
                    self.gullet.lexer(),
                ),
            );
        }
        self.leftright_depth = depth + 1;
        self.nesting = nesting + 1;
        let ghost inner = self@.measure();
        proof {
            self.lemma_wf();
        }
        let body = match self.expression(Ghost(inner), false, None) {
            Ok(body) => body,
            Err(e) => {
                return Err(e);
            },
        };
        self.leftright_depth = depth;
        self.nesting = nesting;
        proof {
            self.lemma_wf();
            lemma_fetch_measure(self@);
        }
        match self.expect("\\right", true) {
            Ok(_) => {},
            Err(e) => {
                return Err(e);
            },
        }
        proof {
            self.lemma_wf();
            lemma_parse_delimiter_measure(self@, command@);
        }
        let right = match self.parse_delimiter(command) {
            Ok(d) => d,
            Err(e) => {
                return Err(e);
            },
        };
        let content = LeftRightParseNode {
            mode,
            loc: None,
            body,
            left,
            right,
            right_color: None,
        };
        proof {
            lemma_left_right_view(content);
        }
        Ok(Some(AnyParseNode::LeftRight(content)))
    }

    /// Reads the parameters of a definition up to its body, and returns how
    /// many there are.
    fn read_parameters(&mut self) -> (r: Result<usize, ParseError>)
        ensures
            final(self)@ == old(self)@.read_parameters(0).state,
            match r {
                Ok(n) => old(self)@.read_parameters(0).result == Ok::<nat, ParseErrorView>(
                    n as nat,
                ),
                Err(e) => old(self)@.read_parameters(0).result == Err::<nat, ParseErrorView>(e@),
            },
            r is Ok ==> final(self)@.measure().within(old(self)@.measure()),
    {
        proof {
            reveal(ParserView::read_parameters);
        }
        let mut count: usize = 0;
        loop
            invariant
                count <= 9,
                self@.read_parameters(count as nat) == old(self)@.read_parameters(0),
                self@.measure().within(old(self)@.measure()),
            decreases self@.gullet.remaining(),
        {
            proof {
                reveal(ParserView::read_parameters);
                self.lemma_wf();
                lemma_pop_decreases(self@.gullet);
                lemma_pop_pending(self@.gullet);
                lemma_hash_is_not_eof();
            }
            let ghost before = self@;
            let next = self.gullet.future();
            if next.is("{") {
                return Ok(count);
            }
            let token = self.gullet.pop_token();
            assert(self@.gullet == before.gullet.pop().1) by {
                assert(before.gullet.future().1.pop().1 == before.gullet.pop().1);
            }
            if token.is("#") {
                proof {
                    lemma_pop_decreases(self@.gullet);
                    lemma_pop_pending(self@.gullet);
                }
                let number = self.gullet.pop_token();
                match digit_of(number.text.as_str()) {
                    Some(n) => {
                        if n == count + 1 {
                            count = n;
                            continue ;
                        }
                    },
                    None => {},
                }
                return Err(
                    ParseError::new(
                        ParseErrorKind::InvalidDefinition,
                        "Invalid argument number",
                        Some(&number),
                        self.gullet.lexer(),
                    ),
                );
            } else if token.is("EOF") {
                return Err(
                    ParseError::new(
                        ParseErrorKind::UnexpectedEof,
                        "Expected a macro definition",
                        Some(&token),
                        self.gullet.lexer(),
                    ),
                );
            } else {
                return Err(
                    ParseError::new(
                        ParseErrorKind::InvalidDefinition,
                        "Expected a parameter or the macro body",
                        Some(&token),
                        self.gullet.lexer(),
                    ),
                );
            }
        }
    }

    /// Reads a definition after `\def` or `\gdef` and defines the macro.
    fn define_macro(&mut self, global: bool) -> (r: Result<Option<AnyParseNode>, ParseError>)
        ensures
            final(self)@ == old(self)@.define_macro(global).state,
            optional_node_outcome(r) == old(self)@.define_macro(global).result,
            r is Ok ==> final(self)@.measure().within(old(self)@.measure()),
    {
         proof {
            reveal(node_view);
        }
       proof {
            reveal(ParserView::define_macro);
        }
        proof {
            self.lemma_wf();
            lemma_pop_decreases(self@.gullet);
            lemma_pop_pending(self@.gullet);
        }
        let mode = self.mode;
        let name = self.gullet.pop_token();
        if name.is("\\") || name.is("{") || name.is("}") || name.is("$") || name.is("&")
            || name.is("#") || name.is("^") || name.is("_") || name.is("EOF") {
            return Err(
                ParseError::new(
                    ParseErrorKind::InvalidDefinition,
                    "Expected a control sequence",
                    Some(&name),
                    self.gullet.lexer(),
                ),
            );
        }
        let count = match self.read_parameters() {
            Ok(count) => count,
            Err(e) => {
                return Err(e);
            },
        };
        proof {
            self.lemma_wf();
            lemma_consume_arg_pending(self@.gullet, None);
            crate::gullet::lemma_total_weight_bounds(
                self@.gullet.consume_arg(None).result->Ok_0.tokens,
            );
        }
        let arg = match self.gullet.consume_arg(None) {
            Ok(arg) => arg,
            Err(e) => {
                return Err(e);
            },
        };
        let definition = MacroDefinition::Expansion(
            MacroExpansion { tokens: arg.1, num_args: count, delimiters: None },
        );
        if global {
            self.gullet.define_global(name.text, definition);
        } else {
            self.gullet.define(name.text, definition);
        }
        Ok(Some(AnyParseNode::Internal(InternalParseNode { mode, loc: None })))
    }

    /// Reads the argument of `\tag` and keeps it for later.
    fn define_tag(&mut self, token: &Token) -> (r: Result<Option<AnyParseNode>, ParseError>)
        ensures
            final(self)@ == old(self)@.define_tag(token@).state,
            optional_node_outcome(r) == old(self)@.define_tag(token@).result,
            r is Ok ==> final(self)@.measure().within(old(self)@.measure()),
    {
         proof {
            reveal(node_view);
        }
       proof {
            reveal(ParserView::define_tag);
        }
        let mode = self.mode;
        if self.gullet.macros().has("\\df@tag") {
            return Err(
                ParseError::new(
                    ParseErrorKind::DuplicateTag,
                    "Multiple \\tag",
                    Some(token),
                    self.gullet.lexer(),
                ),
            );
        }
        proof {
            self.lemma_wf();
            lemma_consume_arg_pending(self@.gullet, None);
            crate::gullet::lemma_total_weight_bounds(
                self@.gullet.consume_arg(None).result->Ok_0.tokens,
            );
        }
        let arg = match self.gullet.consume_arg(None) {
            Ok(arg) => arg,
            Err(e) => {
                return Err(e);
            },
        };
        self.gullet.define_global(
            String::from_str("\\df@tag"),
            MacroDefinition::Expansion(
                MacroExpansion { tokens: arg.1, num_args: 0, delimiters: None },
            ),
        );
        Ok(Some(AnyParseNode::Internal(InternalParseNode { mode, loc: None })))
    }

    /// Reads `count` arguments of a command. Each argument is put back
    /// behind an end marker and parsed as an expression in a group of its
    /// own.
    fn parse_arguments(&mut self, Ghost(limit): Ghost<Measure>, count: usize) -> (r: Result<
        Vec<AnyParseNode>,
        ParseError,
    >)
        requires
            old(self)@.measure().within(limit),
            0 <= limit.fuel,
            0 <= limit.pending,
        ensures
            final(self)@ == old(self)@.parse_arguments(limit, count as nat, Seq::empty()).state,
            nodes_outcome(r) == old(self)@.parse_arguments(
                limit,
                count as nat,
                Seq::empty(),
            ).result,
            r is Ok ==> final(self)@.measure().within(old(self)@.measure()),
        decreases limit.fuel, limit.pending, 9int, count,
    {
        let mut args: Vec<AnyParseNode> = Vec::new();
        let mut i: usize = 0;
        assert(node_views(args@) =~= Seq::empty());
        while i < count
            invariant
                i <= count,
                self@.parse_arguments(limit, (count - i) as nat, node_views(args@)) == old(
                    self,
                )@.parse_arguments(limit, count as nat, Seq::empty()),
                self@.measure().within(old(self)@.measure()),
                old(self)@.measure().within(limit),
                0 <= limit.fuel,
                0 <= limit.pending,
            decreases count - i,
        {
            proof {
                self.lemma_wf();
                lemma_parse_arguments(self@, limit, (count - i) as nat, node_views(args@));
                lemma_scan_argument_pending(self@.gullet, false);
            }
            let mode = self.mode;
            let nesting = self.nesting;
            let ghost before = args@;
            if nesting >= MAX_NESTING {
                return Err(
                    ParseError::new(
                        ParseErrorKind::NestingTooDeep,
                        "Arguments and groups nest too deep",
                        None,
                        self.gullet.lexer(),
                    ),
                );
            }
            let spanned = match self.gullet.scan_argument(false) {
                Ok(spanned) => spanned,
                Err(e) => {
                    return Err(e);
                },
            };
            self.gullet.begin_group();
            self.nesting = nesting + 1;
            proof {
                self.lemma_wf();
            }
            let body = match self.expression(Ghost(limit), false, Some("EOF")) {
                Ok(body) => body,
                Err(e) => {
                    return Err(e);
                },
            };
            proof {
                self.lemma_wf();
                lemma_fetch_measure(self@);
            }
            match self.expect("EOF", true) {
                Ok(_) => {},
                Err(e) => {
                    return Err(e);
                },
            }
            let ended = self.gullet.end_group();
            self.nesting = nesting;
            match ended {
                Ok(_) => {},
                Err(e) => {
                    return Err(e);
                },
            }
            let group = OrdGroupParseNode {
                mode,
                loc: match spanned {
                    Some(t) => t.loc,
                    None => None,
                },
                body,
                semisimple: None,
            };
            proof {
                lemma_group_view(group);
                lemma_node_views_push(before, AnyParseNode::OrdGroup(group));
            }
            args.push(AnyParseNode::OrdGroup(group));
            i += 1;
        }
        proof {
            self.lemma_wf();
            lemma_parse_arguments(self@, limit, 0, node_views(args@));
        }
        Ok(args)
    }

    /// Does what a command that reads no expression asks for.
    fn handle_simple(&mut self, f: crate::functions::FunctionSpec, token: Token) -> (r: Result<
        Option<AnyParseNode>,
        ParseError,
    >)
        ensures
            final(self)@ == old(self)@.handle_simple(f, token@).state,
            optional_node_outcome(r) == old(self)@.handle_simple(f, token@).result,
            r is Ok ==> final(self)@.measure().within(old(self)@.measure()),
    {
        proof {
            reveal(node_view);
            self.lemma_wf();
            lemma_parse_delimiter_measure(self@, token@);
        }
        let mode = self.mode;
        match f.kind {
            FunctionKind::Infix => {
                let replace_with = replacement_of(token.text.as_str());
                Ok(
                    Some(
                        AnyParseNode::Infix(
                            InfixParseNode {
                                mode,
                                loc: None,
                                replace_with,
                                size: None,
                                token: Some(token),
                            },
                        ),
                    ),
                )
            },
            FunctionKind::Def => {
                let global = token.is("\\gdef");
                self.define_macro(global)
            },
            FunctionKind::Tag => self.define_tag(&token),
            FunctionKind::Right => {
                match self.parse_delimiter(&token) {
                    Ok(delim) => Ok(
                        Some(
                            AnyParseNode::LeftRightRight(
                                LeftRightRightParseNode { mode, loc: None, delim, color: None },
                            ),
                        ),
                    ),
                    Err(e) => Err(e),
                }
            },
            FunctionKind::Middle => {
                if self.leftright_depth == 0 {
                    return Err(
                        ParseError::new(
                            ParseErrorKind::MiddleWithoutLeft,
                            "\\middle without preceding \\left",
                            Some(&token),
                            self.gullet.lexer(),
                        ),
                    );
                }
                match self.parse_delimiter(&token) {
                    Ok(delim) => Ok(
                        Some(AnyParseNode::Middle(MiddleParseNode { mode, loc: None, delim })),
                    ),
                    Err(e) => Err(e),
                }
            },
            _ => Ok(Some(AnyParseNode::Internal(InternalParseNode { mode, loc: None }))),
        }
    }

    /// Does what the command `token` asks for; `f` is its entry in the function
    /// table.
    fn handle_function(
        &mut self,
        Ghost(limit): Ghost<Measure>,
        f: crate::functions::FunctionSpec,
        token: Token,
    ) -> (r: Result<Option<AnyParseNode>, ParseError>)
        requires
            old(self)@.measure().within(limit),
            0 <= limit.fuel,
            0 <= limit.pending,
        ensures
            final(self)@ == old(self)@.handle_function(limit, f, token@).state,
            optional_node_outcome(r) == old(self)@.handle_function(limit, f, token@).result,
            r is Ok ==> final(self)@.measure().within(old(self)@.measure()),
        decreases limit.fuel, limit.pending, 10int, 0nat,
    {
        proof {
            self.lemma_wf();
            lemma_handle_function(self@, limit, f, token@);
        }
        let mode = self.mode;
        match f.kind {
            FunctionKind::Left => self.parse_left_right(Ghost(limit), &token),
            FunctionKind::Genfrac => {
                let args = match self.parse_arguments(Ghost(limit), f.num_args) {
                    Ok(args) => args,
                    Err(e) => {
                        return Err(e);
                    },
                };
                match call(mode, token.text.as_str(), args, Some(&token), self.gullet.lexer()) {
                    Ok(node) => Ok(Some(node)),
                    Err(e) => Err(e),
                }
            },
            FunctionKind::Text => {
                self.mode = Mode::Text;
                let read = self.parse_arguments(Ghost(limit), 1);
                self.mode = mode;
                let mut args = match read {
                    Ok(args) => args,
                    Err(e) => {
                        return Err(e);
                    },
                };
                let ghost views = node_views(args@);
                let single = args.len() == 1 && match &args[0] {
                    AnyParseNode::OrdGroup(_) => true,
                    _ => false,
                };
                proof {
                    reveal(node_view);
                }
                let body = if single {
                    match args.pop() {
                        Some(AnyParseNode::OrdGroup(group)) => {
                            proof {
                                lemma_group_body(group);
                            }
                            group.body
                        },
                        _ => Vec::new(),
                    }
                } else {
                    args
                };
                let content = TextParseNode { mode, loc: None, body, font: None };
                proof {
                    lemma_text_view(content);
                }
                Ok(Some(AnyParseNode::Text(content)))
            },
            _ => self.handle_simple(f, token),
        }
    }

    /// Reads a command of the function table with its arguments, if the
    /// lookahead is one.
    fn parse_function(&mut self, Ghost(limit): Ghost<Measure>) -> (r: Result<
        Option<AnyParseNode>,
        ParseError,
    >)
        requires
            old(self)@.measure().within(limit),
            0 <= limit.fuel,
            0 <= limit.pending,
        ensures
            final(self)@ == old(self)@.parse_function(limit).state,
            optional_node_outcome(r) == old(self)@.parse_function(limit).result,
            r is Ok ==> final(self)@.measure().within(old(self)@.measure()),
            (r matches Ok(n) && n is Some) ==> final(self)@.measure().below(old(self)@.measure()),
        decreases limit.fuel, limit.pending, 3int, 0nat,
    {
        proof {
            self.lemma_wf();
            lemma_parse_function(self@, limit);
            lemma_function_head_measure(self@);
        }
        let token = match self.fetch() {
            Ok(token) => token,
            Err(e) => {
                return Err(e);
            },
        };
        let f = match lookup_function(token.text.as_str()) {
            Some(f) => f,
            None => {
                return Ok(None);
            },
        };
        self.consume();
        if self.mode == Mode::Text && !f.allowed_in_text {
            let message = String::from_str("Can't use function '").concat(
                token.text.as_str(),
            ).concat("' in text mode");
            return Err(
                ParseError::new(
                    ParseErrorKind::WrongMode,
                    message.as_str(),
                    Some(&token),
                    self.gullet.lexer(),
                ),
            );
        }
        let ghost inner = self@.measure();
        self.handle_function(Ghost(inner), f, token)
    }

    /// Reads a group after its opening token `first`, which is the
    /// lookahead.
    fn parse_braced(&mut self, Ghost(limit): Ghost<Measure>, first: &Token) -> (r: Result<
        Option<AnyParseNode>,
        ParseError,
    >)
        requires
            old(self)@.measure().within(limit),
            0 <= limit.fuel,
            0 <= limit.pending,
            old(self)@.next_token == Some(first@),
            crate::gullet::weight(first@) == 1,
            first@.text == "{"@ || first@.text == "\\begingroup"@,
        ensures
            final(self)@ == old(self)@.parse_braced(limit, first@).state,
            optional_node_outcome(r) == old(self)@.parse_braced(limit, first@).result,
            r is Ok ==> final(self)@.measure().below(old(self)@.measure()),
        decreases limit.fuel, limit.pending, 4int, 0nat,
    {
        proof {
            self.lemma_wf();
            lemma_parse_braced(self@, limit, first@);
        }
        let mode = self.mode;
        let nesting = self.nesting;
        let braces = first.is("{");
        self.consume();
        if nesting >= MAX_NESTING {
            return Err(
                ParseError::new(
                    ParseErrorKind::NestingTooDeep,
                    "Arguments and groups nest too deep",
                    Some(first),
                    self.gullet.lexer(),
                ),
            );
        }
        self.nesting = nesting + 1;
        self.gullet.begin_group();
        let ghost inner = self@.measure();
        proof {
            self.lemma_wf();
        }
        let body = match self.expression(
            Ghost(inner),
            false,
            Some(
                if braces {
                    "}"
                } else {
                    "\\endgroup"
                },
            ),
        ) {
            Ok(body) => body,
            Err(e) => {
                return Err(e);
            },
        };
        proof {
            self.lemma_wf();
            lemma_fetch_measure(self@);
            lemma_fetch_measure(self@.fetch().state);
        }
        let last = match self.fetch() {
            Ok(token) => token,
            Err(e) => {
                return Err(e);
            },
        };
        match self.expect(
            if braces {
                "}"
            } else {
                "\\endgroup"
            },
            true,
        ) {
            Ok(_) => {},
            Err(e) => {
                return Err(e);
            },
        }
        match self.gullet.end_group() {
            Ok(_) => {
                self.nesting = nesting;
            },
            Err(e) => {
                self.nesting = nesting;
                return Err(e);
            },
        }
        let group = OrdGroupParseNode {
            mode,
            loc: SourceLocation::range(first.loc.as_ref(), last.loc.as_ref()),
            body,
            semisimple: if braces {
                None
            } else {
                Some(true)
            },
        };
        proof {
            lemma_group_view(group);
        }
        Ok(Some(AnyParseNode::OrdGroup(group)))
    }

    /// Reads a command or a symbol; `first` is the lookahead.
    fn parse_plain(&mut self, Ghost(limit): Ghost<Measure>, first: &Token) -> (r: Result<
        Option<AnyParseNode>,
        ParseError,
    >)
        requires
            old(self)@.measure().within(limit),
            0 <= limit.fuel,
            0 <= limit.pending,
        ensures
            final(self)@ == old(self)@.parse_plain(limit, first@).state,
            optional_node_outcome(r) == old(self)@.parse_plain(limit, first@).result,
            r is Ok ==> final(self)@.measure().within(old(self)@.measure()),
            (r matches Ok(n) && n is Some) ==> final(self)@.measure().below(old(self)@.measure()),
        decreases limit.fuel, limit.pending, 4int, 0nat,
    {
        proof {
            self.lemma_wf();
            lemma_parse_plain(self@, limit, first@);
        }
        match self.parse_function(Ghost(limit)) {
            Ok(Some(node)) => {
                return Ok(Some(node));
            },
            Ok(None) => {},
            Err(e) => {
                return Err(e);
            },
        }
        match self.parse_symbol() {
            Ok(Some(node)) => {
                return Ok(Some(node));
            },
            Ok(None) => {},
            Err(e) => {
                return Err(e);
            },
        }
        let chars = crate::text::chars_of(first.text.as_str());
        if chars.len() > 0 && chars[0] == '\\' && !crate::macro_expander::is_implicit(
            first.text.as_str(),
        ) {
            let message = String::from_str("Undefined control sequence: ").concat(
                first.text.as_str(),
            );
            return Err(
                ParseError::new(
                    ParseErrorKind::UndefinedControlSequence,
                    message.as_str(),
                    Some(&first),
                    self.gullet.lexer(),
                ),
            );
        }
        Ok(None)
    }

    /// Reads a group, a command or a symbol.
    fn parse_group(&mut self, Ghost(limit): Ghost<Measure>) -> (r: Result<
        Option<AnyParseNode>,
        ParseError,
    >)
        requires
            old(self)@.measure().within(limit),
            0 <= limit.fuel,
            0 <= limit.pending,
        ensures
            final(self)@ == old(self)@.parse_group(limit).state,
            optional_node_outcome(r) == old(self)@.parse_group(limit).result,
            r is Ok ==> final(self)@.measure().within(old(self)@.measure()),
            (r matches Ok(n) && n is Some) ==> final(self)@.measure().below(old(self)@.measure()),
        decreases limit.fuel, limit.pending, 5int, 0nat,
    {
        proof {
            self.lemma_wf();
            lemma_parse_group(self@, limit);
            lemma_fetch_measure(self@);
        }
        let first = match self.fetch() {
            Ok(token) => token,
            Err(e) => {
                return Err(e);
            },
        };
        proof {
            self.lemma_wf();
            lemma_weight_of_commands(first@);
        }
        if first.is("{") || first.is("\\begingroup") {
            self.parse_braced(Ghost(limit), &first)
        } else {
            self.parse_plain(Ghost(limit), &first)
        }
    }

    /// Reads the group that follows `^` or `_`; `symbol` is that token.
    fn parse_script(&mut self, Ghost(limit): Ghost<Measure>, symbol: &Token) -> (r: Result<
        AnyParseNode,
        ParseError,
    >)
        requires
            old(self)@.measure().within(limit),
            0 <= limit.fuel,
            0 <= limit.pending,
        ensures
            final(self)@ == old(self)@.parse_script(limit, symbol@).state,
            crate::infix::node_outcome(r) == old(self)@.parse_script(limit, symbol@).result,
            r is Ok ==> final(self)@.measure().within(old(self)@.measure()),
        decreases limit.fuel, limit.pending, 6int, 0nat,
    {
        proof {
            self.lemma_wf();
            lemma_parse_script(self@, limit, symbol@);
        }
        match self.consume_spaces() {
            Ok(_) => {},
            Err(e) => {
                return Err(e);
            },
        }
        proof {
            self.lemma_wf();
        }
        match self.parse_group(Ghost(limit)) {
            Ok(Some(node)) => Ok(node),
            Ok(None) => {
                let message = String::from_str("Expected group after '").concat(
                    symbol.text.as_str(),
                ).concat("'");
                Err(
                    ParseError::new(
                        ParseErrorKind::MissingArgument,
                        message.as_str(),
                        Some(symbol),
                        self.gullet.lexer(),
                    ),
                )
            },
            Err(e) => Err(e),
        }
    }

    /// Puts a base and its scripts together.
    fn make_scripts(
        mode: Mode,
        base: Option<AnyParseNode>,
        sup: Option<AnyParseNode>,
        sub: Option<AnyParseNode>,
    ) -> (node: Option<AnyParseNode>)
        ensures
            crate::infix::optional_node_view(node) == with_scripts(
                mode,
                crate::infix::optional_node_view(base),
                crate::infix::optional_node_view(sup),
                crate::infix::optional_node_view(sub),
            ),
    {
         proof {
            reveal(node_view);
        }
       if sup.is_none() && sub.is_none() {
            base
        } else {
            Some(
                AnyParseNode::SupSub(
                    SupSubParseNode {
                        mode,
                        loc: None,
                        base: match base {
                            Some(n) => Some(Box::new(n)),
                            None => None,
                        },
                        sup: match sup {
                            Some(n) => Some(Box::new(n)),
                            None => None,
                        },
                        sub: match sub {
                            Some(n) => Some(Box::new(n)),
                            None => None,
                        },
                    },
                ),
            )
        }
    }

    /// Reads the superscripts and subscripts that follow the base `base`.
    fn parse_scripts(&mut self, Ghost(limit): Ghost<Measure>, base: Option<AnyParseNode>) -> (r:
        Result<Option<AnyParseNode>, ParseError>)
        requires
            old(self)@.measure().within(limit),
            0 <= limit.fuel,
            0 <= limit.pending,
        ensures
            final(self)@ == old(self)@.parse_scripts(
                limit,
                crate::infix::optional_node_view(base),
                None,
                None,
            ).state,
            optional_node_outcome(r) == old(self)@.parse_scripts(
                limit,
                crate::infix::optional_node_view(base),
                None,
                None,
            ).result,
            r is Ok ==> final(self)@.measure().within(old(self)@.measure()),
            (r matches Ok(n) && n is Some && base is None) ==> final(self)@.measure().below(
                old(self)@.measure(),
            ),
        decreases limit.fuel, limit.pending, 5int, 0nat,
    {
        let mut sup: Option<AnyParseNode> = None;
        let mut sub: Option<AnyParseNode> = None;
        let ghost mut current = limit;
        let ghost base_view = crate::infix::optional_node_view(base);
        loop
            invariant
                base_view == crate::infix::optional_node_view(base),
                self@.parse_scripts(
                    current,
                    base_view,
                    crate::infix::optional_node_view(sup),
                    crate::infix::optional_node_view(sub),
                ) == old(self)@.parse_scripts(limit, base_view, None, None),
                self@.measure().within(current),
                current.within(limit),
                0 <= current.fuel,
                0 <= current.pending,
                0 <= limit.fuel,
                0 <= limit.pending,
                self@.measure().within(old(self)@.measure()),
                (sup is Some || sub is Some) ==> self@.measure().below(old(self)@.measure()),
            decreases current.fuel, current.pending,
        {
            proof {
                self.lemma_wf();
                lemma_parse_scripts(
                    self@,
                    current,
                    base_view,
                    crate::infix::optional_node_view(sup),
                    crate::infix::optional_node_view(sub),
                );
                lemma_scripts_head_measure(self@, sup is Some, sub is Some);
                crate::grammar::lemma_scripts_are_not_eof();
            }
            let mode = self.mode;
            match self.consume_spaces() {
                Ok(_) => {},
                Err(e) => {
                    return Err(e);
                },
            }
            proof {
                self.lemma_wf();
                lemma_fetch_measure(self@);
            }
            let lex = match self.fetch() {
                Ok(token) => token,
                Err(e) => {
                    return Err(e);
                },
            };
            let is_sup = lex.is("^");
            let is_sub = lex.is("_");
            if !is_sup && !is_sub {
                return Ok(Self::make_scripts(mode, base, sup, sub));
            }
            if (is_sup && sup.is_some()) || (is_sub && sub.is_some()) {
                return Err(
                    ParseError::new(
                        ParseErrorKind::DoubleScript,
                        if is_sup {
                            "Double superscript"
                        } else {
                            "Double subscript"
                        },
                        Some(&lex),
                        self.gullet.lexer(),
                    ),
                );
            }
            proof {
                lemma_weight_of_commands(lex@);
            }
            self.consume();
            let ghost inner = self@.measure();
            proof {
                self.lemma_wf();
            }
            let node = match self.parse_script(Ghost(inner), &lex) {
                Ok(node) => node,
                Err(e) => {
                    return Err(e);
                },
            };
            if is_sup {
                sup = Some(node);
            } else {
                sub = Some(node);
            }
            proof {
                self.lemma_wf();
                current = self@.measure();
            }
        }
    }

    /// Reads one atom: a group, a command or a symbol, in math mode with the
    /// superscripts and subscripts that follow it.
    fn parse_atom(&mut self, Ghost(limit): Ghost<Measure>) -> (r: Result<
        Option<AnyParseNode>,
        ParseError,
    >)
        requires
            old(self)@.measure().within(limit),
            0 <= limit.fuel,
            0 <= limit.pending,
        ensures
            final(self)@ == old(self)@.parse_atom(limit).state,
            optional_node_outcome(r) == old(self)@.parse_atom(limit).result,
            r is Ok ==> final(self)@.measure().within(old(self)@.measure()),
            (r matches Ok(n) && n is Some) ==> final(self)@.measure().below(old(self)@.measure()),
        decreases limit.fuel, limit.pending, 6int, 0nat,
    {
        proof {
            self.lemma_wf();
            lemma_parse_atom(self@, limit);
        }
        let mode = self.mode;
        let base = match self.parse_group(Ghost(limit)) {
            Ok(base) => base,
            Err(e) => {
                return Err(e);
            },
        };
        if mode == Mode::Text {
            return Ok(base);
        }
        proof {
            self.lemma_wf();
        }
        self.parse_scripts(Ghost(limit), base)
    }

    /// Reads atoms until a token ends the expression or what comes is no
    /// atom.
    fn parse_atoms(
        &mut self,
        Ghost(limit): Ghost<Measure>,
        break_on_infix: bool,
        break_on_token_text: Option<&str>,
    ) -> (r: Result<Vec<AnyParseNode>, ParseError>)
        requires
            old(self)@.measure().within(limit),
            0 <= limit.fuel,
            0 <= limit.pending,
        ensures
            final(self)@ == old(self)@.parse_atoms(
                limit,
                break_on_infix,
                break_view(break_on_token_text),
                Seq::empty(),
            ).state,
            nodes_outcome(r) == old(self)@.parse_atoms(
                limit,
                break_on_infix,
                break_view(break_on_token_text),
                Seq::empty(),
            ).result,
            r is Ok ==> final(self)@.measure().within(old(self)@.measure()),
        decreases limit.fuel, limit.pending, 7int, 0nat,
    {
        let mut body: Vec<AnyParseNode> = Vec::new();
        let ghost mut current = limit;
        let ghost break_text = break_view(break_on_token_text);
        assert(node_views(body@) =~= Seq::empty());
        // Keep adding atoms to the body until we can't parse any more atoms
        // (either we reached the end, a }, or a \right)
        loop
            invariant
                break_text == break_view(break_on_token_text),
                self@.parse_atoms(current, break_on_infix, break_text, node_views(body@)) == old(
                    self,
                )@.parse_atoms(limit, break_on_infix, break_text, Seq::empty()),
                self@.measure().within(current),
                current.within(limit),
                0 <= current.fuel,
                0 <= current.pending,
                0 <= limit.fuel,
                0 <= limit.pending,
                self@.measure().within(old(self)@.measure()),
                old(self)@.measure().within(limit),
            decreases current.fuel, current.pending,
        {
            proof {
                self.lemma_wf();
                lemma_pending_bounds(self@);
                lemma_parse_atoms(
                    self@,
                    current,
                    break_on_infix,
                    break_text,
                    node_views(body@),
                );
                lemma_atoms_head_measure(self@, break_on_infix, break_text);
            }
            // Ignore spaces in math mode
            if self.mode == Mode::Math {
                match self.consume_spaces() {
                    Ok(_) => {},
                    Err(e) => {
                        return Err(e);
                    },
                }
            }
            proof {
                self.lemma_wf();
                lemma_fetch_measure(self@);
            }
            let lex = match self.fetch() {
                Ok(token) => token,
                Err(e) => {
                    return Err(e);
                },
            };
            if lex.is("}") || lex.is("\\endgroup") || lex.is("\\end") || lex.is("\\right")
                || lex.is("&") {
                return Ok(body);
            }
            match break_on_token_text {
                Some(text) => {
                    if lex.is(text) {
                        return Ok(body);
                    }
                },
                None => {},
            }
            if break_on_infix {
                match lookup_function(lex.text.as_str()) {
                    Some(f) => {
                        if f.infix {
                            return Ok(body);
                        }
                    },
                    None => {},
                }
            }
            let ghost before = body@;
            proof {
                self.lemma_wf();
            }
            let atom = match self.parse_atom(Ghost(current)) {
                Ok(atom) => atom,
                Err(e) => {
                    return Err(e);
                },
            };
            proof {
                reveal(node_view);
            }
            match atom {
                Some(node) => {
                    let internal = match &node {
                        AnyParseNode::Internal(_) => true,
                        _ => false,
                    };
                    if !internal {
                        proof {
                            lemma_node_views_push(before, node);
                        }
                        body.push(node);
                    }
                },
                None => {
                    return Ok(body);
                },
            }
            proof {
                self.lemma_wf();
                current = self@.measure();
            }
        }
    }

    /// Parses an "expression", which is a list of atoms.
    ///
    /// `break_on_infix`: Should the parsing stop when we hit infix nodes? This
    /// happens when functions have higher precedence than infix nodes in
    /// implicit parses.
    ///
    /// `break_on_token_text`: The text of the token that the expression
    /// should end with, or nothing if something else should end the
    /// expression.
    fn expression(
        &mut self,
        Ghost(limit): Ghost<Measure>,
        break_on_infix: bool,
        break_on_token_text: Option<&str>,
    ) -> (r: Result<Vec<AnyParseNode>, ParseError>)
        requires
            old(self)@.measure().within(limit),
            0 <= limit.fuel,
            0 <= limit.pending,
        ensures
            final(self)@ == old(self)@.parse_expression(
                limit,
                break_on_infix,
                break_view(break_on_token_text),
            ).state,
            nodes_outcome(r) == old(self)@.parse_expression(
                limit,
                break_on_infix,
                break_view(break_on_token_text),
            ).result,
            r is Ok ==> final(self)@.measure().within(old(self)@.measure()),
        decreases limit.fuel, limit.pending, 7int, 1nat,
    {
        proof {
            self.lemma_wf();
            lemma_parse_expression(self@, limit, break_on_infix, break_view(break_on_token_text));
        }
        let mode = self.mode;
        let body = match self.parse_atoms(Ghost(limit), break_on_infix, break_on_token_text) {
            Ok(body) => body,
            Err(e) => {
                return Err(e);
            },
        };
        let body = if mode == Mode::Text {
            ligatures(body)
        } else {
            body
        };
        rewrite_infix(mode, body, self.gullet.lexer())
    }

    /// Parses an "expression", which is a list of atoms, from where the
    /// parser stands.
    ///
    /// With `break_on_infix`, the expression ends before an infix operator;
    /// with `break_on_token_text`, it ends before a token of that text. It
    /// always ends before `}`, `\endgroup`, `\end`, `\right` and `&`, and
    /// before what is no atom.
    pub fn parse_expression(&mut self, break_on_infix: bool, break_on_token_text: Option<&str>) -> (r:
        Result<Vec<AnyParseNode>, ParseError>)
        ensures
            final(self)@ == old(self)@.parse_expression(
                old(self)@.measure(),
                break_on_infix,
                break_view(break_on_token_text),
            ).state,
            nodes_outcome(r) == old(self)@.parse_expression(
                old(self)@.measure(),
                break_on_infix,
                break_view(break_on_token_text),
            ).result,
    {
        proof {
            self.lemma_wf();
        }
        let ghost limit = self@.measure();
        self.expression(Ghost(limit), break_on_infix, break_on_token_text)
    }

    /// Rewrites infix operators such as `\over` with corresponding commands
    /// such as `\frac`.
    ///
    /// There can only be one infix operator per group. If there's more than
    /// one then the expression is ambiguous. This can be resolved by adding
    /// {}.
    pub fn handle_infix_nodes(&self, body: Vec<AnyParseNode>) -> (r: Result<
        Vec<AnyParseNode>,
        ParseError,
    >)
        ensures
            nodes_outcome(r) == crate::grammar::handle_infix_nodes(
                self@.mode,
                node_views(body@),
                self@.gullet.lexer,
            ),
    {
        rewrite_infix(self.mode, body, self.gullet.lexer())
    }

    /// Main parsing function, which parses an entire input.
    ///
    /// The expression is parsed in a group of its own, unless the settings
    /// ask for the global group. When the function returns, with a tree or
    /// with an error, no group is open.
    pub fn parse(&mut self) -> (r: Result<Vec<AnyParseNode>, ParseError>)
        ensures
            final(self)@ == old(self)@.parse().state,
            nodes_outcome(r) == old(self)@.parse().result,
            final(self)@.gullet.macros.overlays.len() == 0,
    {
        proof {
            reveal(ParserView::parse);
            self.lemma_wf();
        }
        if !self.settings.global_group {
            // Create a group namespace for the math expression.
            // (LaTeX creates a new group for every $...$, $$...$$, \[...\].)
            self.gullet.begin_group();
        }
        // Use old \color behavior (same as LaTeX's \textcolor) if requested.
        // We do this within the group for the math expression, so it doesn't
        // pollute settings.macros.
        if self.settings.color_is_text_color {
            self.gullet.define(
                String::from_str("\\color"),
                MacroDefinition::Text(String::from_str("\\textcolor")),
            );
        }
        let r = self.parse_whole();
        // Close any leftover groups in case of a parse error.
        self.gullet.end_groups();
        r
    }

    /// Parses an expression up to the end of the input and closes the group
    /// that `parse` opened.
    fn parse_whole(&mut self) -> (r: Result<Vec<AnyParseNode>, ParseError>)
        ensures
            ({
                let parsed = old(self)@.parse_expression(old(self)@.measure(), false, None);
                match parsed.result {
                    Ok(body) => {
                        let ended = parsed.state.expect(crate::lexer::eof_text(), true);
                        match ended.result {
                            Ok(_) => if old(self)@.settings.global_group {
                                final(self)@ == ended.state && nodes_outcome(r) == Ok::<
                                    Seq<NodeView>,
                                    ParseErrorView,
                                >(body)
                            } else {
                                let closed = ended.state.gullet.end_group();
                                final(self)@ == ended.state.with_gullet(closed.state)
                                    && nodes_outcome(r) == match closed.result {
                                    Ok(_) => Ok::<Seq<NodeView>, ParseErrorView>(body),
                                    Err(e) => Err(e),
                                }
                            },
                            Err(e) => final(self)@ == ended.state && nodes_outcome(r) == Err::<
                                Seq<NodeView>,
                                ParseErrorView,
                            >(e),
                        }
                    },
                    Err(e) => final(self)@ == parsed.state && nodes_outcome(r) == Err::<
                        Seq<NodeView>,
                        ParseErrorView,
                    >(e),
                }
            }),
    {
        proof {
            self.lemma_wf();
        }
        let global_group = self.settings.global_group;
        let ghost limit = self@.measure();
        // Try to parse the input
        let body = match self.expression(Ghost(limit), false, None) {
            Ok(body) => body,
            Err(e) => {
                return Err(e);
            },
        };
        // If we succeeded, make sure there's an EOF at the end
        match self.expect("EOF", true) {
            Ok(_) => {},
            Err(e) => {
                return Err(e);
            },
        }
        // End the group namespace for the expression
        if !global_group {
            match self.gullet.end_group() {
                Ok(_) => {},
                Err(e) => {
                    return Err(e);
                },
            }
        }
        Ok(body)
    }

    /// Fully parse a separate sequence of tokens as a separate job.
    /// Tokens should be specified in reverse order, as in a macro
    /// definition.
    pub fn subparse(&mut self, tokens: Vec<Token>) -> (r: Result<Vec<AnyParseNode>, ParseError>)
        ensures
            final(self)@ == old(self)@.subparse(token_views(tokens@)).state,
            nodes_outcome(r) == old(self)@.subparse(token_views(tokens@)).result,
    {
        proof {
            reveal(ParserView::subparse);
        }
        // Save the next token from the current job.
        let old_token = self.next_token.take();
        // Run the new job, terminating it with an excess '}'
        self.gullet.push_token(Token::new(String::from_str("}"), None));
        self.gullet.push_tokens(tokens);
        proof {
            self.lemma_wf();
        }
        let ghost limit = self@.measure();
        let body = match self.expression(Ghost(limit), false, None) {
            Ok(body) => body,
            Err(e) => {
                return Err(e);
            },
        };
        match self.expect("}", true) {
            Ok(_) => {},
            Err(e) => {
                return Err(e);
            },
        }
        // Restore the next token from the current job.
        self.next_token = old_token;
        Ok(body)
    }
}

} // verus!
