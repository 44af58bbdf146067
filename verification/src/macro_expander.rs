//! The gullet, where macros are expanded until only non-macro tokens remain.

use vstd::prelude::*;
use vstd::string::StrSliceExecFns;
use crate::expansion::{count_hashes, reversed, single_group, substitute_tokens, tokens_outcome};
use crate::functions::{builtin_macro_map, builtin_macros, lookup_function};
use crate::gullet::{
    ArgumentView, GulletView, joined_text, lemma_expand_once_frame, lemma_pop_decreases,
    lemma_space_is_not_eof,
};
use crate::lexer::{Lexer, LexerView, tokenize};
use crate::namespace::{
    MacroDefinition, MacroExpansion, Namespace, NamespaceView, string_views, with_globals,
};
use crate::parse_error::{ParseError, ParseErrorKind, ParseErrorView};
use crate::parser::Mode;
use crate::settings::Settings;
use crate::symbols::lookup_symbol;
use crate::text::{chars_of, is_char};
use crate::token::{
    Token, TokenView, lemma_token_views_add, lemma_token_views_drop_last,
    lemma_token_views_push, lemma_token_views_subrange, token_list_views, token_views,
};

verus! {

/// List of commands that act like macros but aren't defined as a macro,
/// function, or symbol. Used in `is_defined`.
pub const IMPLICIT_COMMANDS: [&'static str; 4] = ["^", "_", "\\limits", "\\nolimits"];

/// Whether `name` is one of the implicit commands.
pub fn is_implicit(name: &str) -> (b: bool)
    ensures
        b == crate::gullet::is_implicit_command(name@),
{
    let mut i: usize = 0;
    while i < 4
        invariant
            i <= 4,
            forall|j: int| 0 <= j < i ==> IMPLICIT_COMMANDS[j]@ != name@,
        decreases 4 - i,
    {
        if name.eq(IMPLICIT_COMMANDS[i]) {
            return true;
        }
        i += 1;
    }
    false
}

/// The expander: a stack of tokens put back, the lexer behind it, the macros
/// in scope, and the count of expansions made.
#[derive(Debug)]
pub struct MacroExpander {
    max_expand: usize,
    /// Counts up to `max_expand` and no further.
    expansion_count: usize,
    lexer: Lexer,
    macros: Namespace,
    stack: Vec<Token>,
    mode: Mode,
}

impl View for MacroExpander {
    type V = GulletView;

    closed spec fn view(&self) -> GulletView {
        GulletView {
            stack: token_views(self.stack@),
            lexer: self.lexer@,
            macros: self.macros@,
            expansion_count: if self.expansion_count <= self.max_expand {
                self.expansion_count as nat
            } else {
                self.max_expand as nat
            },
            max_expand: self.max_expand as nat,
            mode: self.mode,
        }
    }
}

/// What a call returned, as a mathematical value.
pub open spec fn unit_outcome(r: Result<(), ParseError>) -> Result<(), ParseErrorView> {
    match r {
        Ok(_) => Ok(()),
        Err(e) => Err(e@),
    }
}

pub open spec fn token_outcome(r: Result<Token, ParseError>) -> Result<TokenView, ParseErrorView> {
    match r {
        Ok(t) => Ok(t@),
        Err(e) => Err(e@),
    }
}

pub open spec fn count_outcome(r: Result<Option<usize>, ParseError>) -> Result<
    Option<nat>,
    ParseErrorView,
> {
    match r {
        Ok(Some(n)) => Ok(Some(n as nat)),
        Ok(None) => Ok(None),
        Err(e) => Err(e@),
    }
}

impl MacroExpander {
    /// The state of an expander is always well formed.
    pub proof fn lemma_wf(&self)
        ensures
            self@.wf(),
    {
        self.lexer.lemma_in_bounds();
    }

    /// An expander at the start of `input`, with the built-in macros and
    /// those of `settings`, no group open and no expansion counted.
    pub fn new(input: &str, settings: &Settings, mode: Mode) -> (gullet: MacroExpander)
        ensures
            gullet@ == (GulletView {
                stack: Seq::empty(),
                lexer: LexerView { input: input@, pos: 0, id: Some(0usize) },
                macros: NamespaceView {
                    base: with_globals(builtin_macro_map(), settings.macros@),
                    overlays: Seq::empty(),
                },
                expansion_count: 0,
                max_expand: settings.max_expand as nat,
                mode,
            }),
    {
        let lexer = Lexer::new(input, Some(0));
        let macros = Namespace::new(builtin_macros(), &settings.macros);
        let gullet = MacroExpander {
            max_expand: settings.max_expand,
            expansion_count: 0,
            lexer,
            macros,
            stack: Vec::new(),
            mode,
        };
        assert(gullet@.stack =~= Seq::empty());
        assert(gullet@.macros.overlays =~= Seq::empty());
        gullet
    }

    /// Starts reading `input`; the tokens that were put back stay.
    pub fn feed(&mut self, input: &str)
        ensures
            final(self)@ == old(self)@.feed(input@),
    {
        let id = match self.lexer.id() {
            Some(id) => if id < usize::MAX {
                id + 1
            } else {
                id
            },
            None => 0,
        };
        self.lexer = Lexer::new(input, Some(id));
    }

    pub fn switch_mode(&mut self, new_mode: Mode)
        ensures
            final(self)@ == old(self)@.switch_mode(new_mode),
    {
        self.mode = new_mode;
    }

    /// The mode that the expander is in.
    pub fn mode(&self) -> (mode: Mode)
        ensures
            mode == self@.mode,
    {
        self.mode
    }

    /// The lexer that the expander reads from.
    pub fn lexer(&self) -> (lexer: &Lexer)
        ensures
            lexer@ == self@.lexer,
    {
        &self.lexer
    }

    /// The macros in scope.
    pub fn macros(&self) -> (macros: &Namespace)
        ensures
            macros@ == self@.macros,
    {
        &self.macros
    }

    /// The number of expansions made so far.
    pub fn expansion_count(&self) -> (count: usize)
        ensures
            count == self@.expansion_count,
    {
        if self.expansion_count <= self.max_expand {
            self.expansion_count
        } else {
            self.max_expand
        }
    }

    /// The number of tokens that are put back.
    pub fn stack_len(&self) -> (len: usize)
        ensures
            len == self@.stack.len(),
    {
        self.stack.len()
    }

    /// Defines the macro `name` in the innermost open group.
    pub fn define(&mut self, name: String, definition: MacroDefinition)
        ensures
            final(self)@ == (GulletView {
                macros: old(self)@.macros.insert(name@, definition@),
                ..old(self)@
            }),
    {
        self.macros.insert(name, definition);
    }

    /// Defines the macro `name` in every layer.
    pub fn define_global(&mut self, name: String, definition: MacroDefinition)
        ensures
            final(self)@ == (GulletView {
                macros: old(self)@.macros.insert_global(name@, definition@),
                ..old(self)@
            }),
    {
        self.macros.insert_global(name, definition);
    }

    /// Takes the macro `name` out of every layer.
    pub fn undefine(&mut self, name: &str)
        ensures
            final(self)@ == (GulletView {
                macros: old(self)@.macros.remove(name@),
                ..old(self)@
            }),
    {
        self.macros.remove(name);
    }

    /// Starts a new group nesting within all namespaces.
    pub fn begin_group(&mut self)
        ensures
            final(self)@ == old(self)@.begin_group(),
    {
        self.macros.begin_group();
    }

    /// Ends the current group nesting within all namespaces. Fails if no
    /// group is open.
    pub fn end_group(&mut self) -> (r: Result<(), ParseError>)
        ensures
            final(self)@ == old(self)@.end_group().state,
            unit_outcome(r) == old(self)@.end_group().result,
    {
        match self.macros.end_group() {
            Ok(_) => Ok(()),
            Err(_) => Err(
                ParseError::new(
                    ParseErrorKind::Scope,
                    "Unbalanced namespace destruction: attempt to pop global namespace",
                    None,
                    &self.lexer,
                ),
            ),
        }
    }

    /// Ends all currently nested groups (if any), restoring values before the
    /// groups began. Useful in case of an error in the middle of parsing.
    pub fn end_groups(&mut self)
        ensures
            final(self)@ == old(self)@.end_groups(),
    {
        self.macros.end_groups();
    }

    /// Returns the topmost token on the stack, without expanding it. If the
    /// stack is empty, the lexer's next token is put on it first.
    pub fn future(&mut self) -> (token: Token)
        ensures
            token@ == old(self)@.future().0,
            final(self)@ == old(self)@.future().1,
    {
        if self.stack.len() == 0 {
            let token = self.lexer.lex();
            self.stack.push(token);
            assert(token_views(self.stack@) =~= seq![token@]);
        }
        self.stack[self.stack.len() - 1].clone()
    }

    /// Removes and returns the next unexpanded token.
    pub fn pop_token(&mut self) -> (token: Token)
        ensures
            token@ == old(self)@.pop().0,
            final(self)@ == old(self)@.pop().1,
    {
        match self.stack.pop() {
            Some(token) => {
                proof {
                    lemma_token_views_drop_last(old(self).stack@);
                }
                token
            },
            None => {
                let token = self.lexer.lex();
                assert(seq![token@].drop_last() =~= token_views(self.stack@));
                token
            },
        }
    }

    /// Adds a token to the stack, so that it is read next.
    pub fn push_token(&mut self, token: Token)
        ensures
            final(self)@ == old(self)@.push(token@),
    {
        proof {
            lemma_token_views_push(self.stack@, token);
        }
        self.stack.push(token);
    }

    /// Adds tokens to the stack; the last of them is read first.
    pub fn push_tokens(&mut self, tokens: Vec<Token>)
        ensures
            final(self)@ == old(self)@.push_all(token_views(tokens@)),
    {
        proof {
            lemma_token_views_add(self.stack@, tokens@);
        }
        let mut tokens = tokens;
        self.stack.append(&mut tokens);
    }

    /// Consumes all following space tokens, without expansion.
    pub fn consume_spaces(&mut self)
        ensures
            final(self)@ == old(self)@.consume_spaces(),
    {
        proof {
            reveal(GulletView::consume_spaces);
        }
        loop
            invariant
                self@.consume_spaces() == old(self)@.consume_spaces(),
            ensures
                self@ == old(self)@.consume_spaces(),
            decreases self@.remaining(),
        {
            proof {
                reveal(GulletView::consume_spaces);
                self.lemma_wf();
                lemma_space_is_not_eof();
                lemma_pop_decreases(self@);
            }
            let ghost before = self@;
            let token = self.future();
            if token.is(" ") {
                let popped = self.pop_token();
                assert(self@ == before.pop().1) by {
                    assert(before.future().1.pop().1 == before.pop().1);
                }
            } else {
                break ;
            }
        }
    }

    /// Counts `amount` more expansions. Fails, and counts nothing, if that
    /// passes the limit.
    pub fn count_expansion(&mut self, amount: usize) -> (r: Result<(), ParseError>)
        ensures
            final(self)@ == old(self)@.count_expansion(amount as nat).state,
            unit_outcome(r) == old(self)@.count_expansion(amount as nat).result,
    {
        let count = self.expansion_count();
        if amount > self.max_expand - count {
            Err(
                ParseError::new(
                    ParseErrorKind::TooManyExpansions,
                    "Too many expansions: infinite loop or need to increase maxExpand setting",
                    None,
                    &self.lexer,
                ),
            )
        } else {
            self.expansion_count = count + amount;
            Ok(())
        }
    }

    /// Determine whether a command is currently "defined" (has some
    /// functionality), meaning that it's a macro (in the current group),
    /// a function, a symbol, or one of the special commands.
    pub fn is_defined(&self, name: &str) -> (b: bool)
        ensures
            b == self@.is_defined(name@),
    {
        self.macros.has(name) || lookup_function(name).is_some() || lookup_symbol(
            Mode::Math,
            name,
        ).is_some() || lookup_symbol(Mode::Text, name).is_some() || is_implicit(name)
    }

    /// Determine whether a command is expandable.
    pub fn is_expandable(&self, name: &str) -> (b: bool)
        ensures
            b == self@.is_expandable(name@),
    {
        if self.macros.has(name) {
            true
        } else {
            match lookup_function(name) {
                Some(f) => !f.primitive,
                None => false,
            }
        }
    }

    /// Consumes one macro argument and returns its first token, its tokens
    /// (reversed) and the last token read. Without `delims`, the argument is
    /// a single token or a group in braces; with `delims`, it is everything
    /// up to the tokens that spell `delims`, where braces must balance. The
    /// braces around an argument that is exactly one group are removed.
    ///
    /// Fails on a closing brace that closes nothing, and at the end of the
    /// input.
    pub fn consume_arg(&mut self, delims: Option<&str>) -> (r: Result<
        (Token, Vec<Token>, Token),
        ParseError,
    >)
        ensures
            final(self)@ == old(self)@.consume_arg(delims_view(delims)).state,
            argument_outcome(r) == old(self)@.consume_arg(delims_view(delims)).result,
    {
        proof {
            reveal(GulletView::consume_arg);
            reveal(GulletView::scan_argument_tokens);
        }
        let chars: Vec<char> = match delims {
            Some(d) => chars_of(d),
            None => Vec::new(),
        };
        let ghost spec_delims: Seq<char> = match delims {
            Some(d) => d@,
            None => Seq::empty(),
        };
        let start = self.future();
        let ghost target = self@.scan_argument_tokens(chars@, Seq::empty(), 0, 0);
        let mut tokens: Vec<Token> = Vec::new();
        let mut depth: usize = 0;
        let mut matched: usize = 0;
        let mut end = start.clone();
        assert(token_views(tokens@) =~= Seq::empty());
        loop
            invariant_except_break
                self@.scan_argument_tokens(
                    chars@,
                    token_views(tokens@),
                    depth as nat,
                    matched as nat,
                ) == target,
                depth <= tokens.len(),
                matched <= tokens.len(),
                chars.len() > 0 ==> matched < chars.len(),
            invariant
                chars@ == spec_delims,
                spec_delims == match delims {
                    Some(d) => d@,
                    None => Seq::<char>::empty(),
                },
                old(self)@.future().1.scan_argument_tokens(chars@, Seq::empty(), 0, 0) == target,
                old(self)@.future().0 == start@,
            ensures
                self@ == target.state,
                target.result == Ok::<(Seq<TokenView>, TokenView), ParseErrorView>(
                    (token_views(tokens@), end@),
                ),
            decreases self@.remaining(),
        {
            proof {
                reveal(GulletView::consume_arg);
                reveal(GulletView::scan_argument_tokens);
                self.lemma_wf();
                lemma_pop_decreases(self@);
                lemma_space_is_not_eof();
            }
            let ghost before = tokens@;
            let token = self.pop_token();
            if depth == 0 && token.is("}") {
                return Err(
                    ParseError::new(
                        ParseErrorKind::UnbalancedBrace,
                        "Extra }",
                        Some(&token),
                        &self.lexer,
                    ),
                );
            }
            if token.is("EOF") {
                return Err(
                    ParseError::new(
                        ParseErrorKind::UnexpectedEof,
                        "Unexpected end of input in a macro argument",
                        Some(&token),
                        &self.lexer,
                    ),
                );
            }
            tokens.push(token.clone());
            proof {
                lemma_token_views_push(before, token);
            }
            let read = tokens.len();
            assert(depth < read);
            if token.is("{") {
                depth = depth + 1;
            } else if token.is("}") {
                depth = depth - 1;
            }
            if chars.len() > 0 {
                if (depth == 0 || (depth == 1 && chars[matched] == '{')) && is_char(
                    &token.text,
                    chars[matched],
                ) {
                    matched = matched + 1;
                    if matched == chars.len() {
                        let ghost all = tokens@;
                        tokens.truncate(tokens.len() - chars.len());
                        proof {
                            lemma_token_views_subrange(all, 0, all.len() - chars.len());
                        }
                        end = token;
                        break ;
                    }
                } else {
                    matched = 0;
                }
            } else if depth == 0 {
                end = token;
                break ;
            } else {
                matched = 0;
            }
        }
        let len = tokens.len();
        let ghost read = token_views(tokens@);
        let tokens = if single_group(&tokens) {
            reversed(tokens, 1, len - 1)
        } else {
            let all = reversed(tokens, 0, len);
            assert(read.subrange(0, len as int) =~= read);
            all
        };
        Ok((start, tokens, end))
    }

    /// Takes off the tokens that spell `delims`.
    fn match_delimiter(&mut self, delims: &str) -> (r: Result<(), ParseError>)
        ensures
            final(self)@ == old(self)@.match_delimiter(delims@, 0).state,
            unit_outcome(r) == old(self)@.match_delimiter(delims@, 0).result,
    {
        proof {
            reveal(GulletView::match_delimiter);
        }
        let chars: Vec<char> = chars_of(delims);
        let mut i: usize = 0;
        while i < chars.len()
            invariant
                i <= chars.len(),
                chars@ == delims@,
                self@.match_delimiter(delims@, i as nat) == old(self)@.match_delimiter(delims@, 0),
            decreases chars.len() - i,
        {
            proof {
                reveal(GulletView::match_delimiter);
            }
            let token = self.pop_token();
            if !is_char(&token.text, chars[i]) {
                return Err(
                    ParseError::new(
                        ParseErrorKind::DelimiterMismatch,
                        "Use of the macro doesn't match its definition",
                        Some(&token),
                        &self.lexer,
                    ),
                );
            }
            i += 1;
        }
        Ok(())
    }

    /// Consumes the specified number of arguments from the token stream, and
    /// returns each one's tokens, reversed. With `delimiters`, the tokens
    /// that follow the macro's name must spell the first delimiter, and each
    /// argument runs up to the delimiter after it.
    pub fn consume_args(&mut self, num_args: usize, delimiters: Option<&Vec<String>>) -> (r: Result<
        Vec<Vec<Token>>,
        ParseError,
    >)
        ensures
            final(self)@ == old(self)@.consume_args(
                num_args as nat,
                delimiters_view(delimiters),
            ).state,
            arguments_outcome(r) == old(self)@.consume_args(
                num_args as nat,
                delimiters_view(delimiters),
            ).result,
    {
        proof {
            reveal(GulletView::consume_args);
            reveal(GulletView::collect_arguments);
        }
        let ghost spec_delimiters = delimiters_view(delimiters);
        if let Some(d) = delimiters {
            assert(spec_delimiters == Some(string_views(d@)));
            assert(string_views(d@).len() == d.len());
            if num_args == usize::MAX || d.len() != num_args + 1 {
                assert(string_views(d@).len() != num_args as nat + 1);
                return Err(
                    ParseError::new(
                        ParseErrorKind::DelimiterMismatch,
                        "The length of delimiters doesn't match the number of args!",
                        None,
                        &self.lexer,
                    ),
                );
            }
            match self.match_delimiter(d[0].as_str()) {
                Ok(_) => {},
                Err(e) => {
                    return Err(e);
                },
            }
        }
        let ghost begun = self@;
        let ghost target = begun.collect_arguments(
            num_args as nat,
            spec_delimiters,
            0,
            Seq::empty(),
        );
        let mut args: Vec<Vec<Token>> = Vec::new();
        let mut i: usize = 0;
        assert(token_list_views(args@) =~= Seq::empty());
        while i < num_args
            invariant
                i <= num_args,
                spec_delimiters == delimiters_view(delimiters),
                spec_delimiters matches Some(d) ==> d.len() == num_args + 1,
                self@.collect_arguments(
                    num_args as nat,
                    spec_delimiters,
                    i as nat,
                    token_list_views(args@),
                ) == target,
                old(self)@.consume_args(num_args as nat, spec_delimiters) == target,
            decreases num_args - i,
        {
            proof {
                reveal(GulletView::consume_args);
                reveal(GulletView::collect_arguments);
            }
            let ghost before = args@;
            let read = match delimiters {
                Some(d) => {
                    assert(d@[i + 1]@ == spec_delimiters->0[i + 1]);
                    self.consume_arg(Some(d[i + 1].as_str()))
                },
                None => self.consume_arg(None),
            };
            match read {
                Ok(arg) => {
                    args.push(arg.1);
                    assert(token_list_views(args@) =~= token_list_views(before).push(
                        token_views(arg.1@),
                    ));
                },
                Err(e) => {
                    return Err(e);
                },
            }
            i += 1;
        }
        Ok(args)
    }

    /// The expansion of `name`, if `name` is a macro: a definition text is
    /// cut into tokens, a ready expansion is copied.
    pub fn get_expansion(&self, name: &str) -> (expansion: Option<MacroExpansion>)
        ensures
            match expansion {
                Some(e) => self@.get_expansion(name@) == Some(e@),
                None => self@.get_expansion(name@) is None,
            },
    {
        match self.macros.get(name) {
            Some(definition) => {
                if name.unicode_len() == 1 && name.get_char(0) == '%' {
                    return None;
                }
                match definition {
                    MacroDefinition::Text(text) => {
                        let tokens = tokenize(text.as_str());
                        let len = tokens.len();
                        let ghost read = token_views(tokens@);
                        let tokens = reversed(tokens, 0, len);
                        assert(read.subrange(0, len as int) =~= read);
                        Some(
                            MacroExpansion {
                                tokens,
                                num_args: count_hashes(text.as_str()),
                                delimiters: None,
                            },
                        )
                    },
                    MacroDefinition::Expansion(expansion) => Some(expansion.clone()),
                }
            },
            None => None,
        }
    }

    /// Expand the next token only once if possible.
    ///
    /// If the token is expanded, the resulting tokens are pushed onto the
    /// stack in reverse order, and the number of such tokens is returned. If
    /// not, the token is put back and nothing is returned.
    ///
    /// With `expandable_only`, a token that nothing defines is an error.
    pub fn expand_once(&mut self, expandable_only: bool) -> (r: Result<Option<usize>, ParseError>)
        ensures
            final(self)@ == old(self)@.expand_once(expandable_only).state,
            count_outcome(r) == old(self)@.expand_once(expandable_only).result,
    {
        proof {
            reveal(GulletView::expand_once);
        }
        let top = self.pop_token();
        let expansion = if top.is_noexpand() {
            None
        } else {
            self.get_expansion(top.text.as_str())
        };
        match expansion {
            None => {
                if expandable_only && !self.is_defined(top.text.as_str()) {
                    let message = String::from_str("Undefined control sequence: ").concat(
                        top.text.as_str(),
                    );
                    return Err(
                        ParseError::new(
                            ParseErrorKind::UndefinedControlSequence,
                            message.as_str(),
                            Some(&top),
                            &self.lexer,
                        ),
                    );
                }
                self.push_token(top);
                Ok(None)
            },
            Some(expansion) => {
                match self.count_expansion(1) {
                    Ok(_) => {},
                    Err(e) => {
                        return Err(e);
                    },
                }
                let args = match self.consume_args(expansion.num_args, expansion.delimiters.as_ref()) {
                    Ok(args) => args,
                    Err(e) => {
                        return Err(e);
                    },
                };
                let body = if expansion.num_args > 0 {
                    match substitute_tokens(&expansion.tokens, &args, &self.lexer) {
                        Ok(body) => body,
                        Err(e) => {
                            return Err(e);
                        },
                    }
                } else {
                    let len = expansion.tokens.len();
                    let ghost stored = token_views(expansion.tokens@);
                    let body = reversed(expansion.tokens, 0, len);
                    assert(stored.subrange(0, len as int) =~= stored);
                    body
                };
                let len = body.len();
                let ghost read = token_views(body@);
                let tokens = reversed(body, 0, len);
                assert(read.subrange(0, len as int) =~= read);
                self.push_tokens(tokens);
                Ok(Some(len))
            },
        }
    }

    /// Expand the next token only once (if possible), and return the
    /// resulting top token on the stack (without removing anything from the
    /// stack). Similar in behavior to TeX's `\expandafter\futurelet`.
    pub fn expand_after_future(&mut self) -> (r: Result<Token, ParseError>)
        ensures
            final(self)@ == old(self)@.expand_after_future().state,
            token_outcome(r) == old(self)@.expand_after_future().result,
    {
        proof {
            reveal(GulletView::expand_after_future);
        }
        match self.expand_once(false) {
            Ok(_) => Ok(self.future()),
            Err(e) => Err(e),
        }
    }

    /// Recursively expand first token, then return first non-expandable
    /// token, as `\relax` if it is flagged so.
    pub fn expand_next_token(&mut self) -> (r: Result<Token, ParseError>)
        ensures
            final(self)@ == old(self)@.expand_next_token().state,
            token_outcome(r) == old(self)@.expand_next_token().result,
    {
        proof {
            reveal(GulletView::expand_next_token);
        }
        loop
            invariant
                self@.expand_next_token() == old(self)@.expand_next_token(),
            decreases self@.fuel(),
        {
            proof {
                reveal(GulletView::expand_next_token);
                self.lemma_wf();
                lemma_expand_once_frame(self@, false);
            }
            match self.expand_once(false) {
                Ok(None) => {
                    let mut token = self.pop_token();
                    if token.is_relax() {
                        token.text = String::from_str("\\relax");
                    }
                    return Ok(token);
                },
                Ok(Some(_)) => {},
                Err(e) => {
                    return Err(e);
                },
            }
        }
    }

    /// Fully expand the given token stream and return the resulting list of
    /// tokens. `tokens` are given in stack order: the last one is read
    /// first. Each token that comes out counts as one more expansion, and
    /// has its flags cleared.
    pub fn expand_tokens(&mut self, tokens: Vec<Token>) -> (r: Result<Vec<Token>, ParseError>)
        ensures
            final(self)@ == old(self)@.expand_tokens(token_views(tokens@)).state,
            tokens_outcome(r) == old(self)@.expand_tokens(token_views(tokens@)).result,
    {
        proof {
            reveal(GulletView::expand_tokens);
            reveal(GulletView::expand_above);
        }
        let mut output: Vec<Token> = Vec::new();
        let old_stack_length = self.stack.len();
        self.push_tokens(tokens);
        let ghost target = self@.expand_above(old_stack_length as nat, Seq::empty());
        assert(token_views(output@) =~= Seq::empty());
        while self.stack.len() > old_stack_length
            invariant
                self@.expand_above(old_stack_length as nat, token_views(output@)) == target,
                target == old(self)@.push_all(token_views(tokens@)).expand_above(
                    old(self)@.stack.len(),
                    Seq::empty(),
                ),
            decreases self@.fuel(), self@.stack.len(),
        {
            proof {
                reveal(GulletView::expand_tokens);
                reveal(GulletView::expand_above);
                self.lemma_wf();
                lemma_expand_once_frame(self@, true);
                lemma_pop_decreases(self@);
            }
            let ghost before = output@;
            match self.expand_once(true) {
                Ok(None) => {
                    let mut token = self.pop_token();
                    if token.is_relax() || token.is_noexpand() {
                        token.noexpand = Some(false);
                        token.treat_as_relax = Some(false);
                    }
                    output.push(token);
                    proof {
                        lemma_token_views_push(before, token);
                    }
                },
                Ok(Some(_)) => {},
                Err(e) => {
                    return Err(e);
                },
            }
        }
        proof {
            self.lemma_wf();
        }
        match self.count_expansion(output.len()) {
            Ok(_) => Ok(output),
            Err(e) => Err(e),
        }
    }

    /// Fully expand the given macro name and return the resulting list of
    /// tokens, or return nothing if no such macro is defined.
    pub fn expand_macro(&mut self, name: &str) -> (r: Result<Option<Vec<Token>>, ParseError>)
        ensures
            final(self)@ == old(self)@.expand_macro(name@).state,
            match r {
                Ok(Some(out)) => old(self)@.expand_macro(name@).result == Ok::<
                    Option<Seq<TokenView>>,
                    ParseErrorView,
                >(Some(token_views(out@))),
                Ok(None) => old(self)@.expand_macro(name@).result == Ok::<
                    Option<Seq<TokenView>>,
                    ParseErrorView,
                >(None),
                Err(e) => old(self)@.expand_macro(name@).result == Err::<
                    Option<Seq<TokenView>>,
                    ParseErrorView,
                >(e@),
            },
    {
        proof {
            reveal(GulletView::expand_macro);
        }
        if self.macros.has(name) {
            let mut tokens: Vec<Token> = Vec::new();
            tokens.push(Token::new(String::from_str(name), None));
            assert(token_views(tokens@) =~= seq![TokenView::plain(name@, None)]);
            match self.expand_tokens(tokens) {
                Ok(out) => Ok(Some(out)),
                Err(e) => Err(e),
            }
        } else {
            Ok(None)
        }
    }

    /// Fully expand the given macro name and return the result as a string,
    /// or return nothing if no such macro is defined.
    pub fn expand_macro_as_text(&mut self, name: &str) -> (r: Result<Option<String>, ParseError>)
        ensures
            final(self)@ == old(self)@.expand_macro_as_text(name@).state,
            match r {
                Ok(Some(text)) => old(self)@.expand_macro_as_text(name@).result == Ok::<
                    Option<Seq<char>>,
                    ParseErrorView,
                >(Some(text@)),
                Ok(None) => old(self)@.expand_macro_as_text(name@).result == Ok::<
                    Option<Seq<char>>,
                    ParseErrorView,
                >(None),
                Err(e) => old(self)@.expand_macro_as_text(name@).result == Err::<
                    Option<Seq<char>>,
                    ParseErrorView,
                >(e@),
            },
    {
        proof {
            reveal(GulletView::expand_macro_as_text);
        }
        match self.expand_macro(name) {
            Ok(Some(tokens)) => {
                let mut text = String::new();
                let mut i: usize = 0;
                assert(token_views(tokens@).subrange(0, 0) =~= Seq::<TokenView>::empty());
                while i < tokens.len()
                    invariant
                        i <= tokens.len(),
                        text@ == joined_text(token_views(tokens@).subrange(0, i as int)),
                    decreases tokens.len() - i,
                {
                    text.append(tokens[i].text.as_str());
                    i += 1;
                    proof {
                        let part = token_views(tokens@).subrange(0, i as int);
                        assert(part.drop_last() =~= token_views(tokens@).subrange(0, i - 1));
                    }
                }
                assert(token_views(tokens@).subrange(0, tokens.len() as int) =~= token_views(
                    tokens@,
                ));
                Ok(Some(text))
            },
            Ok(None) => Ok(None),
            Err(e) => Err(e),
        }
    }

    /// Find a macro argument without expanding tokens and append the array of
    /// tokens to the token stack, behind an end marker. Returns a token that
    /// spans the argument, or nothing where an optional argument is missing.
    pub fn scan_argument(&mut self, is_optional: bool) -> (r: Result<Option<Token>, ParseError>)
        ensures
            final(self)@ == old(self)@.scan_argument(is_optional).state,
            match r {
                Ok(Some(t)) => old(self)@.scan_argument(is_optional).result == Ok::<
                    Option<TokenView>,
                    ParseErrorView,
                >(Some(t@)),
                Ok(None) => old(self)@.scan_argument(is_optional).result == Ok::<
                    Option<TokenView>,
                    ParseErrorView,
                >(None),
                Err(e) => old(self)@.scan_argument(is_optional).result == Err::<
                    Option<TokenView>,
                    ParseErrorView,
                >(e@),
            },
    {
        proof {
            reveal(GulletView::scan_argument);
        }
        let (start, tokens, end) = if is_optional {
            self.consume_spaces();
            let next = self.future();
            if !next.is("[") {
                return Ok(None);
            }
            let start = self.pop_token();
            assert(self@ == old(self)@.consume_spaces().future().1.pop().1);
            match self.consume_arg(Some("]")) {
                Ok(arg) => (start, arg.1, arg.2),
                Err(e) => {
                    return Err(e);
                },
            }
        } else {
            match self.consume_arg(None) {
                Ok(arg) => arg,
                Err(e) => {
                    return Err(e);
                },
            }
        };
        self.push_token(Token::new(String::from_str("EOF"), end.loc));
        self.push_tokens(tokens);
        let spanned = start.range(&end, String::new());
        Ok(Some(spanned))
    }
}

/// What `consume_arg` takes for its delimiter, as a mathematical value.
pub open spec fn delims_view(delims: Option<&str>) -> Option<Seq<char>> {
    match delims {
        Some(d) => Some(d@),
        None => None,
    }
}

/// What `consume_args` takes for its delimiters, as a mathematical value.
pub open spec fn delimiters_view(delimiters: Option<&Vec<String>>) -> Option<Seq<Seq<char>>> {
    match delimiters {
        Some(d) => Some(string_views(d@)),
        None => None,
    }
}

/// What `consume_arg` returned, as a mathematical value.
pub open spec fn argument_outcome(r: Result<(Token, Vec<Token>, Token), ParseError>) -> Result<
    ArgumentView,
    ParseErrorView,
> {
    match r {
        Ok(a) => Ok(ArgumentView { start: a.0@, tokens: token_views(a.1@), end: a.2@ }),
        Err(e) => Err(e@),
    }
}

/// What `consume_args` returned, as a mathematical value.
pub open spec fn arguments_outcome(r: Result<Vec<Vec<Token>>, ParseError>) -> Result<
    Seq<Seq<TokenView>>,
    ParseErrorView,
> {
    match r {
        Ok(a) => Ok(token_list_views(a@)),
        Err(e) => Err(e@),
    }
}

} // verus!
