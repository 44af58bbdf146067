//! What the expander does, written down as functions on its state.
//!
//! The expander reads tokens from a stack of tokens that were put back and,
//! once that is empty, from the lexer. Each operation is a function from the
//! state before it to the state after it and what it returns.

use vstd::prelude::*;
use crate::functions::function_spec;
use crate::lexer::{LexerView, catcode, eof_text, lemma_next_lexeme_bounds, tokens_from};
use crate::namespace::{MacroDefinitionView, MacroExpansionView, NamespaceView};
use crate::parse_error::{ParseError, ParseErrorKind, ParseErrorView};
use crate::parser::Mode;
use crate::symbols::{math_symbol, text_symbol};
use crate::token::TokenView;

verus! {

/// Whether `name` is one of the commands that act like macros but are not
/// defined as a macro, function, or symbol.
pub open spec fn is_implicit_command(name: Seq<char>) -> bool {
    name == "^"@ || name == "_"@ || name == "\\limits"@ || name == "\\nolimits"@
}

/// The state of the expander.
pub struct GulletView {
    /// The tokens that were put back; the last one is read next.
    pub stack: Seq<TokenView>,
    pub lexer: LexerView,
    pub macros: NamespaceView,
    /// The number of expansions so far.
    pub expansion_count: nat,
    /// The most expansions allowed.
    pub max_expand: nat,
    pub mode: Mode,
}

/// The state after an operation, with what the operation returned or the
/// error that ended it.
pub struct Step<T> {
    pub state: GulletView,
    pub result: Result<T, ParseErrorView>,
}

/// One macro argument as read from the input.
pub struct ArgumentView {
    /// The first token of the argument, as it was before the argument was read.
    pub start: TokenView,
    /// The argument's tokens, reversed.
    pub tokens: Seq<TokenView>,
    /// The last token that was read.
    pub end: TokenView,
}

/// The net number of braces that `tokens` leave open, starting from `depth`,
/// is zero, and no brace closes what is not open.
pub open spec fn balanced_from(tokens: Seq<TokenView>, depth: int) -> bool
    decreases tokens.len(),
{
    if tokens.len() == 0 {
        depth == 0
    } else if tokens[0].text == "{"@ {
        balanced_from(tokens.skip(1), depth + 1)
    } else if tokens[0].text == "}"@ {
        depth > 0 && balanced_from(tokens.skip(1), depth - 1)
    } else {
        balanced_from(tokens.skip(1), depth)
    }
}

/// Every `{` in `tokens` has its `}` and the other way round.
pub open spec fn balanced(tokens: Seq<TokenView>) -> bool {
    balanced_from(tokens, 0)
}

/// `tokens` is exactly one group: `{`, a balanced sequence, `}`.
pub open spec fn is_single_group(tokens: Seq<TokenView>) -> bool {
    &&& tokens.len() >= 2
    &&& tokens[0].text == "{"@
    &&& tokens.last().text == "}"@
    &&& balanced(tokens.subrange(1, tokens.len() - 1))
}

/// The number of times `c` occurs in `s`.
pub open spec fn count_char(s: Seq<char>, c: char) -> nat
    decreases s.len(),
{
    if s.len() == 0 {
        0
    } else {
        count_char(s.drop_last(), c) + if s.last() == c {
            1nat
        } else {
            0nat
        }
    }
}

/// The expansion that a definition text stands for: its tokens, and one
/// argument for every `#` in it.
pub open spec fn text_expansion(text: Seq<char>) -> MacroExpansionView {
    MacroExpansionView {
        tokens: tokens_from(text, 0, None).reverse(),
        num_args: count_char(text, '#'),
        delimiters: None,
    }
}

/// The argument that a placeholder's second token names: `1` to `9`.
pub open spec fn argument_number(text: Seq<char>) -> Option<nat> {
    if text.len() == 1 && '1' <= text[0] && text[0] <= '9' {
        Some((text[0] as nat - '0' as nat) as nat)
    } else {
        None
    }
}

/// `first` followed by `rest`, unless `rest` failed.
pub open spec fn prepend(
    first: Seq<TokenView>,
    rest: Result<Seq<TokenView>, ParseErrorView>,
) -> Result<Seq<TokenView>, ParseErrorView> {
    match rest {
        Ok(r) => Ok(first + r),
        Err(e) => Err(e),
    }
}

/// The macro body `body`, in reading order, with each placeholder replaced:
/// `#` and a digit by that argument's tokens, `#` `#` by the second `#`.
/// Each argument in `args` is stored reversed.
pub open spec fn substitute(
    body: Seq<TokenView>,
    args: Seq<Seq<TokenView>>,
    source: LexerView,
) -> Result<Seq<TokenView>, ParseErrorView>
    decreases body.len(),
{
    if body.len() == 0 {
        Ok(Seq::empty())
    } else if body[0].text == "#"@ {
        if body.len() == 1 {
            Err(
                ParseError::spec_new(
                    ParseErrorKind::IncompletePlaceholder,
                    "Incomplete placeholder at end of macro body"@,
                    Some(body[0]),
                    source,
                ),
            )
        } else if body[1].text == "#"@ {
            prepend(seq![body[1]], substitute(body.skip(2), args, source))
        } else {
            match argument_number(body[1].text) {
                Some(n) => if n <= args.len() {
                    prepend(args[n - 1].reverse(), substitute(body.skip(2), args, source))
                } else {
                    Err(
                        ParseError::spec_new(
                            ParseErrorKind::InvalidPlaceholder,
                            "Not a valid argument number"@,
                            Some(body[1]),
                            source,
                        ),
                    )
                },
                None => Err(
                    ParseError::spec_new(
                        ParseErrorKind::InvalidPlaceholder,
                        "Not a valid argument number"@,
                        Some(body[1]),
                        source,
                    ),
                ),
            }
        }
    } else {
        prepend(seq![body[0]], substitute(body.skip(1), args, source))
    }
}

/// The token as `expand_tokens` hands it out: with both flags cleared if one
/// was set.
pub open spec fn cleared(token: TokenView) -> TokenView {
    if token.is_relax() || token.is_noexpand() {
        TokenView { noexpand: Some(false), treat_as_relax: Some(false), ..token }
    } else {
        token
    }
}

/// The token as `expand_next_token` hands it out: as `\relax` if it is
/// flagged so.
pub open spec fn relaxed(token: TokenView) -> TokenView {
    if token.is_relax() {
        TokenView { text: "\\relax"@, ..token }
    } else {
        token
    }
}

/// The texts of `tokens`, joined.
pub open spec fn joined_text(tokens: Seq<TokenView>) -> Seq<char>
    decreases tokens.len(),
{
    if tokens.len() == 0 {
        Seq::empty()
    } else {
        joined_text(tokens.drop_last()) + tokens.last().text
    }
}

impl GulletView {
    /// The expansion count is within its limit and the lexer within its input.
    pub open spec fn wf(self) -> bool {
        &&& self.expansion_count <= self.max_expand
        &&& 0 <= self.lexer.pos <= self.lexer.input.len()
    }

    /// The tokens that are still to be read, in reading order: those put
    /// back, then those of the lexer.
    pub open spec fn upcoming(self) -> Seq<TokenView> {
        self.stack.reverse() + self.lexer.rest()
    }

    /// A bound on the number of tokens that are still to be read.
    pub open spec fn remaining(self) -> int {
        self.stack.len() + (self.lexer.input.len() - self.lexer.pos)
    }

    /// The number of expansions that are still allowed.
    pub open spec fn fuel(self) -> int {
        self.max_expand - self.expansion_count
    }

    /// An error raised at `token` while in this state.
    pub open spec fn error(
        self,
        kind: ParseErrorKind,
        message: Seq<char>,
        token: Option<TokenView>,
    ) -> ParseErrorView {
        ParseError::spec_new(kind, message, token, self.lexer)
    }

    pub open spec fn fail<T>(
        self,
        kind: ParseErrorKind,
        message: Seq<char>,
        token: Option<TokenView>,
    ) -> Step<T> {
        Step { state: self, result: Err(self.error(kind, message, token)) }
    }

    pub open spec fn done<T>(self, value: T) -> Step<T> {
        Step { state: self, result: Ok(value) }
    }

    /// A new lexer takes the place of the old one; the tokens put back stay.
    pub open spec fn feed(self, input: Seq<char>) -> GulletView {
        GulletView {
            lexer: LexerView {
                input,
                pos: 0,
                id: match self.lexer.id {
                    Some(id) => Some(
                        if id < usize::MAX {
                            (id + 1) as usize
                        } else {
                            id
                        },
                    ),
                    None => Some(0usize),
                },
            },
            ..self
        }
    }

    pub open spec fn switch_mode(self, mode: Mode) -> GulletView {
        GulletView { mode, ..self }
    }

    pub open spec fn begin_group(self) -> GulletView {
        GulletView { macros: self.macros.begin_group(), ..self }
    }

    pub open spec fn end_group(self) -> Step<()> {
        if self.macros.overlays.len() == 0 {
            self.fail(
                ParseErrorKind::Scope,
                "Unbalanced namespace destruction: attempt to pop global namespace"@,
                None,
            )
        } else {
            (GulletView { macros: self.macros.end_group(), ..self }).done(())
        }
    }

    pub open spec fn end_groups(self) -> GulletView {
        GulletView { macros: self.macros.end_groups(), ..self }
    }

    /// The next token, which stays to be read: if no token is put back, the
    /// lexer's next one is put on the stack.
    pub open spec fn future(self) -> (TokenView, GulletView) {
        if self.stack.len() == 0 {
            let token = self.lexer.next_token();
            (token, GulletView { stack: seq![token], lexer: self.lexer.advance(), ..self })
        } else {
            (self.stack.last(), self)
        }
    }

    /// The next token, taken off.
    pub open spec fn pop(self) -> (TokenView, GulletView) {
        let (token, state) = self.future();
        (token, GulletView { stack: state.stack.drop_last(), ..state })
    }

    /// `token` is put back, to be read next.
    pub open spec fn push(self, token: TokenView) -> GulletView {
        GulletView { stack: self.stack.push(token), ..self }
    }

    /// `tokens` are put back; the last of them is read next.
    pub open spec fn push_all(self, tokens: Seq<TokenView>) -> GulletView {
        GulletView { stack: self.stack + tokens, ..self }
    }

    /// The spaces at the front are taken off.
    #[verifier::opaque]
    pub open spec fn consume_spaces(self) -> GulletView
        decreases self.remaining(),
        when self.wf()
    {
        let (token, state) = self.future();
        if token.text == " "@ {
            proof {
                lemma_space_is_not_eof();
                lemma_pop_decreases(self);
            }
            self.pop().1.consume_spaces()
        } else {
            state
        }
    }

    /// Reads on until the argument is complete. `acc` holds the tokens read so
    /// far, `depth` the number of open braces among them, `matched` how much
    /// of the delimiter the last tokens have matched. Gives the argument's
    /// tokens, the delimiter left out, and the last token read.
    #[verifier::opaque]
    pub open spec fn scan_argument_tokens(
        self,
        delims: Seq<char>,
        acc: Seq<TokenView>,
        depth: nat,
        matched: nat,
    ) -> Step<(Seq<TokenView>, TokenView)>
        decreases self.remaining(),
        when self.wf()
    {
        let (token, state) = self.pop();
        let acc = acc.push(token);
        if token.text == "}"@ && depth == 0 {
            state.fail(ParseErrorKind::UnbalancedBrace, "Extra }"@, Some(token))
        } else if token.text == eof_text() {
            state.fail(
                ParseErrorKind::UnexpectedEof,
                "Unexpected end of input in a macro argument"@,
                Some(token),
            )
        } else {
            proof {
                lemma_pop_decreases(self);
            }
            let depth = if token.text == "{"@ {
                depth + 1
            } else if token.text == "}"@ {
                (depth - 1) as nat
            } else {
                depth
            };
            if delims.len() > 0 {
                if matched < delims.len() && (depth == 0 || (depth == 1 && delims[matched as int]
                    == '{')) && token.text == seq![delims[matched as int]] {
                    if matched + 1 == delims.len() {
                        state.done((acc.take(acc.len() - delims.len()), token))
                    } else {
                        state.scan_argument_tokens(delims, acc, depth, matched + 1)
                    }
                } else {
                    state.scan_argument_tokens(delims, acc, depth, 0)
                }
            } else if depth == 0 {
                state.done((acc, token))
            } else {
                state.scan_argument_tokens(delims, acc, depth, 0)
            }
        }
    }

    /// Reads one macro argument: a single token, a group in braces, or, with
    /// `delims`, everything up to that delimiter. The braces of an argument
    /// that is exactly one group are left out.
    #[verifier::opaque]
    pub open spec fn consume_arg(self, delims: Option<Seq<char>>) -> Step<ArgumentView> {
        let (start, state) = self.future();
        let scan = state.scan_argument_tokens(
            match delims {
                Some(d) => d,
                None => Seq::empty(),
            },
            Seq::empty(),
            0,
            0,
        );
        match scan.result {
            Ok((tokens, end)) => scan.state.done(
                ArgumentView {
                    start,
                    tokens: if is_single_group(tokens) {
                        tokens.subrange(1, tokens.len() - 1).reverse()
                    } else {
                        tokens.reverse()
                    },
                    end,
                },
            ),
            Err(e) => Step { state: scan.state, result: Err(e) },
        }
    }

    /// Takes off the tokens that spell `delims` from position `from` on.
    #[verifier::opaque]
    pub open spec fn match_delimiter(self, delims: Seq<char>, from: nat) -> Step<()>
        decreases delims.len() - from,
    {
        if from >= delims.len() {
            self.done(())
        } else {
            let (token, state) = self.pop();
            if token.text == seq![delims[from as int]] {
                state.match_delimiter(delims, from + 1)
            } else {
                state.fail(
                    ParseErrorKind::DelimiterMismatch,
                    "Use of the macro doesn't match its definition"@,
                    Some(token),
                )
            }
        }
    }

    /// Reads the arguments from number `from` on and appends them to `acc`.
    #[verifier::opaque]
    pub open spec fn collect_arguments(
        self,
        num_args: nat,
        delimiters: Option<Seq<Seq<char>>>,
        from: nat,
        acc: Seq<Seq<TokenView>>,
    ) -> Step<Seq<Seq<TokenView>>>
        decreases num_args - from,
    {
        if from >= num_args {
            self.done(acc)
        } else {
            let read = self.consume_arg(
                match delimiters {
                    Some(d) => Some(d[from as int + 1]),
                    None => None,
                },
            );
            match read.result {
                Ok(arg) => read.state.collect_arguments(
                    num_args,
                    delimiters,
                    from + 1,
                    acc.push(arg.tokens),
                ),
                Err(e) => Step { state: read.state, result: Err(e) },
            }
        }
    }

    /// Reads the arguments of a macro: with delimiters, first what follows
    /// the macro's name, then each argument up to its delimiter.
    #[verifier::opaque]
    pub open spec fn consume_args(self, num_args: nat, delimiters: Option<Seq<Seq<char>>>) -> Step<
        Seq<Seq<TokenView>>,
    > {
        match delimiters {
            Some(d) => if d.len() != num_args + 1 {
                self.fail(
                    ParseErrorKind::DelimiterMismatch,
                    "The length of delimiters doesn't match the number of args!"@,
                    None,
                )
            } else {
                let head = self.match_delimiter(d[0], 0);
                match head.result {
                    Ok(_) => head.state.collect_arguments(num_args, delimiters, 0, Seq::empty()),
                    Err(e) => Step { state: head.state, result: Err(e) },
                }
            },
            None => self.collect_arguments(num_args, delimiters, 0, Seq::empty()),
        }
    }

    /// Counts `amount` more expansions, unless that passes the limit.
    pub open spec fn count_expansion(self, amount: nat) -> Step<()> {
        if self.expansion_count + amount > self.max_expand {
            self.fail(
                ParseErrorKind::TooManyExpansions,
                "Too many expansions: infinite loop or need to increase maxExpand setting"@,
                None,
            )
        } else {
            (GulletView { expansion_count: self.expansion_count + amount, ..self }).done(())
        }
    }

    /// The expansion of `name`, if it is a macro. A single character with a
    /// category code other than that of an active character is none.
    pub open spec fn get_expansion(self, name: Seq<char>) -> Option<MacroExpansionView> {
        match self.macros.get(name) {
            Some(definition) => if name.len() == 1 && (catcode(name[0]) matches Some(code) && code
                != 13) {
                None
            } else {
                match definition {
                    MacroDefinitionView::Text(text) => Some(text_expansion(text)),
                    MacroDefinitionView::Expansion(expansion) => Some(expansion),
                }
            },
            None => None,
        }
    }

    /// Whether `name` is a macro, a function, a symbol, or one of the implicit
    /// commands.
    pub open spec fn is_defined(self, name: Seq<char>) -> bool {
        self.macros.has(name) || function_spec(name) is Some || math_symbol(name) is Some
            || text_symbol(name) is Some || is_implicit_command(name)
    }

    /// Whether `name` is a macro or a function that is no primitive.
    pub open spec fn is_expandable(self, name: Seq<char>) -> bool {
        self.macros.has(name) || (function_spec(name) matches Some(f) && !f.primitive)
    }

    /// Expands the next token once if it is a macro; else leaves it where it
    /// was. Gives the number of tokens that took the macro's place.
    #[verifier::opaque]
    pub open spec fn expand_once(self, expandable_only: bool) -> Step<Option<nat>> {
        let (top, state) = self.pop();
        let expansion = if top.is_noexpand() {
            None
        } else {
            state.get_expansion(top.text)
        };
        match expansion {
            None => if expandable_only && !state.is_defined(top.text) {
                state.fail(
                    ParseErrorKind::UndefinedControlSequence,
                    "Undefined control sequence: "@ + top.text,
                    Some(top),
                )
            } else {
                state.push(top).done(None)
            },
            Some(expansion) => {
                let counted = state.count_expansion(1);
                match counted.result {
                    Err(e) => Step { state: counted.state, result: Err(e) },
                    Ok(_) => {
                        let read = counted.state.consume_args(
                            expansion.num_args,
                            expansion.delimiters,
                        );
                        match read.result {
                            Err(e) => Step { state: read.state, result: Err(e) },
                            Ok(args) => {
                                let body = if expansion.num_args > 0 {
                                    substitute(expansion.tokens.reverse(), args, read.state.lexer)
                                } else {
                                    Ok(expansion.tokens.reverse())
                                };
                                match body {
                                    Err(e) => Step { state: read.state, result: Err(e) },
                                    Ok(tokens) => read.state.push_all(tokens.reverse()).done(
                                        Some(tokens.len()),
                                    ),
                                }
                            },
                        }
                    },
                }
            },
        }
    }

    /// Expands once, then looks at the next token.
    #[verifier::opaque]
    pub open spec fn expand_after_future(self) -> Step<TokenView> {
        let expanded = self.expand_once(false);
        match expanded.result {
            Ok(_) => {
                let (token, state) = expanded.state.future();
                state.done(token)
            },
            Err(e) => Step { state: expanded.state, result: Err(e) },
        }
    }

    /// Expands until the next token is no macro, and takes that token off.
    #[verifier::opaque]
    pub open spec fn expand_next_token(self) -> Step<TokenView>
        decreases self.fuel(),
        when self.wf()
    {
        let expanded = self.expand_once(false);
        match expanded.result {
            Ok(None) => {
                let (token, state) = expanded.state.pop();
                state.done(relaxed(token))
            },
            Ok(Some(_)) => {
                proof {
                    lemma_expand_once_frame(self, false);
                }
                expanded.state.expand_next_token()
            },
            Err(e) => Step { state: expanded.state, result: Err(e) },
        }
    }

    /// Expands what lies on the stack above the height `base`, and appends
    /// the tokens that come out to `out`.
    #[verifier::opaque]
    pub open spec fn expand_above(self, base: nat, out: Seq<TokenView>) -> Step<Seq<TokenView>>
        decreases self.fuel(), self.stack.len(),
        when self.wf()
    {
        if self.stack.len() <= base {
            self.done(out)
        } else {
            let expanded = self.expand_once(true);
            proof {
                lemma_expand_once_frame(self, true);
            }
            match expanded.result {
                Ok(None) => {
                    let (token, state) = expanded.state.pop();
                    state.expand_above(base, out.push(cleared(token)))
                },
                Ok(Some(_)) => expanded.state.expand_above(base, out),
                Err(e) => Step { state: expanded.state, result: Err(e) },
            }
        }
    }

    /// Fully expands `tokens`, given in stack order, and counts each token
    /// that comes out as one more expansion.
    #[verifier::opaque]
    pub open spec fn expand_tokens(self, tokens: Seq<TokenView>) -> Step<Seq<TokenView>> {
        let expanded = self.push_all(tokens).expand_above(self.stack.len(), Seq::empty());
        match expanded.result {
            Ok(out) => {
                let counted = expanded.state.count_expansion(out.len());
                match counted.result {
                    Ok(_) => counted.state.done(out),
                    Err(e) => Step { state: counted.state, result: Err(e) },
                }
            },
            Err(e) => Step { state: expanded.state, result: Err(e) },
        }
    }

    /// The full expansion of the macro `name`, or nothing if `name` is no
    /// macro.
    #[verifier::opaque]
    pub open spec fn expand_macro(self, name: Seq<char>) -> Step<Option<Seq<TokenView>>> {
        if self.macros.has(name) {
            let expanded = self.expand_tokens(seq![TokenView::plain(name, None)]);
            match expanded.result {
                Ok(out) => expanded.state.done(Some(out)),
                Err(e) => Step { state: expanded.state, result: Err(e) },
            }
        } else {
            self.done(None)
        }
    }

    /// The full expansion of the macro `name` as text.
    #[verifier::opaque]
    pub open spec fn expand_macro_as_text(self, name: Seq<char>) -> Step<Option<Seq<char>>> {
        let expanded = self.expand_macro(name);
        match expanded.result {
            Ok(Some(out)) => expanded.state.done(Some(joined_text(out))),
            Ok(None) => expanded.state.done(None),
            Err(e) => Step { state: expanded.state, result: Err(e) },
        }
    }

    /// Reads an argument and puts it back with an end marker behind it, so
    /// that it can be parsed on its own. With `is_optional`, the argument
    /// stands in square brackets and may be missing.
    #[verifier::opaque]
    pub open spec fn scan_argument(self, is_optional: bool) -> Step<Option<TokenView>> {
        if is_optional {
            let (next, state) = self.consume_spaces().future();
            if next.text == "["@ {
                let (start, state) = state.pop();
                let read = state.consume_arg(Some("]"@));
                match read.result {
                    Ok(arg) => read.state.push(TokenView::plain(eof_text(), arg.end.loc)).push_all(
                        arg.tokens,
                    ).done(Some(start.range(arg.end, Seq::empty()))),
                    Err(e) => Step { state: read.state, result: Err(e) },
                }
            } else {
                state.done(None)
            }
        } else {
            let read = self.consume_arg(None);
            match read.result {
                Ok(arg) => read.state.push(TokenView::plain(eof_text(), arg.end.loc)).push_all(
                    arg.tokens,
                ).done(Some(arg.start.range(arg.end, Seq::empty()))),
                Err(e) => Step { state: read.state, result: Err(e) },
            }
        }
    }
}

pub proof fn lemma_space_is_not_eof()
    ensures
        " "@ != eof_text(),
        "{"@ != eof_text(),
        "}"@ != eof_text(),
        "{"@ != "}"@,
{
    reveal_strlit(" ");
    reveal_strlit("EOF");
    reveal_strlit("{");
    reveal_strlit("}");
    assert(" "@.len() == 1);
    assert("EOF"@.len() == 3);
    assert("{"@[0] == '{');
    assert("}"@[0] == '}');
}

/// Taking a token off leaves the rest of the state as it was, and unless
/// the token is the end marker, less remains to be read.
pub proof fn lemma_pop_decreases(s: GulletView)
    requires
        s.wf(),
    ensures
        s.pop().1.wf(),
        s.pop().1.remaining() <= s.remaining(),
        s.pop().0.text != eof_text() ==> s.pop().1.remaining() < s.remaining(),
        s.future().1.wf(),
        s.future().1.stack.len() > 0,
        s.future().1.stack.last() == s.future().0,
        s.future().0.text != eof_text() ==> s.future().1.remaining() <= s.remaining(),
        s.future().1.remaining() <= s.remaining() + 1,
        s.pop().1.macros == s.macros,
        s.pop().1.expansion_count == s.expansion_count,
        s.pop().1.max_expand == s.max_expand,
        s.pop().1.mode == s.mode,
        s.pop().1.lexer.input == s.lexer.input,
        s.pop().1.lexer.id == s.lexer.id,
        s.stack.len() > 0 ==> s.pop().1.stack == s.stack.drop_last() && s.pop().1.lexer
            == s.lexer,
        s.stack.len() == 0 ==> s.pop().1.stack.len() == 0,
{
    lemma_next_lexeme_bounds(s.lexer.input, s.lexer.pos);
    if s.stack.len() == 0 {
        assert(seq![s.lexer.next_token()].drop_last() =~= Seq::<TokenView>::empty());
    }
}

/// What reading an argument's tokens leaves as it was.
pub proof fn lemma_scan_frame(
    s: GulletView,
    delims: Seq<char>,
    acc: Seq<TokenView>,
    depth: nat,
    matched: nat,
)
    requires
        s.wf(),
    ensures
        ({
            let r = s.scan_argument_tokens(delims, acc, depth, matched);
            &&& r.state.wf()
            &&& r.state.macros == s.macros
            &&& r.state.expansion_count == s.expansion_count
            &&& r.state.max_expand == s.max_expand
            &&& r.state.mode == s.mode
            &&& r.state.lexer.input == s.lexer.input
            &&& r.state.lexer.id == s.lexer.id
            &&& r.state.remaining() <= s.remaining()
        }),
    decreases s.remaining(),
{
    reveal(GulletView::scan_argument_tokens);
    lemma_pop_decreases(s);
    let (token, state) = s.pop();
    let acc1 = acc.push(token);
    if token.text == "}"@ && depth == 0 {
    } else if token.text == eof_text() {
    } else {
        let depth1 = if token.text == "{"@ {
            depth + 1
        } else if token.text == "}"@ {
            (depth - 1) as nat
        } else {
            depth
        };
        if delims.len() > 0 {
            if matched < delims.len() && (depth1 == 0 || (depth1 == 1 && delims[matched as int]
                == '{')) && token.text == seq![delims[matched as int]] {
                if matched + 1 == delims.len() {
                } else {
                    lemma_scan_frame(state, delims, acc1, depth1, matched + 1);
                }
            } else {
                lemma_scan_frame(state, delims, acc1, depth1, 0);
            }
        } else if depth1 == 0 {
        } else {
            lemma_scan_frame(state, delims, acc1, depth1, 0);
        }
    }
}

/// What reading one argument leaves as it was.
pub proof fn lemma_consume_arg_frame(s: GulletView, delims: Option<Seq<char>>)
    requires
        s.wf(),
    ensures
        ({
            let r = s.consume_arg(delims);
            &&& r.state.wf()
            &&& r.state.macros == s.macros
            &&& r.state.expansion_count == s.expansion_count
            &&& r.state.max_expand == s.max_expand
            &&& r.state.mode == s.mode
            &&& r.state.lexer.input == s.lexer.input
            &&& r.state.lexer.id == s.lexer.id
        }),
{
    reveal(GulletView::consume_arg);
    lemma_pop_decreases(s);
    lemma_scan_frame(
        s.future().1,
        match delims {
            Some(d) => d,
            None => Seq::empty(),
        },
        Seq::empty(),
        0,
        0,
    );
}

pub proof fn lemma_match_delimiter_frame(s: GulletView, delims: Seq<char>, from: nat)
    requires
        s.wf(),
    ensures
        ({
            let r = s.match_delimiter(delims, from);
            &&& r.state.wf()
            &&& r.state.macros == s.macros
            &&& r.state.expansion_count == s.expansion_count
            &&& r.state.max_expand == s.max_expand
            &&& r.state.mode == s.mode
            &&& r.state.lexer.input == s.lexer.input
            &&& r.state.lexer.id == s.lexer.id
        }),
    decreases delims.len() - from,
{
    reveal(GulletView::match_delimiter);
    if from < delims.len() {
        lemma_pop_decreases(s);
        let (token, state) = s.pop();
        if token.text == seq![delims[from as int]] {
            lemma_match_delimiter_frame(state, delims, from + 1);
        }
    }
}

pub proof fn lemma_collect_arguments_frame(
    s: GulletView,
    num_args: nat,
    delimiters: Option<Seq<Seq<char>>>,
    from: nat,
    acc: Seq<Seq<TokenView>>,
)
    requires
        s.wf(),
    ensures
        ({
            let r = s.collect_arguments(num_args, delimiters, from, acc);
            &&& r.state.wf()
            &&& r.state.macros == s.macros
            &&& r.state.expansion_count == s.expansion_count
            &&& r.state.max_expand == s.max_expand
            &&& r.state.mode == s.mode
            &&& r.state.lexer.input == s.lexer.input
            &&& r.state.lexer.id == s.lexer.id
            &&& r.result matches Ok(args) ==> args.len() == acc.len() + if from <= num_args {
                num_args - from
            } else {
                0
            }
        }),
    decreases num_args - from,
{
    reveal(GulletView::collect_arguments);
    if from < num_args {
        let d = match delimiters {
            Some(d) => Some(d[from as int + 1]),
            None => None,
        };
        lemma_consume_arg_frame(s, d);
        let read = s.consume_arg(d);
        match read.result {
            Ok(arg) => {
                lemma_collect_arguments_frame(
                    read.state,
                    num_args,
                    delimiters,
                    from + 1,
                    acc.push(arg.tokens),
                );
            },
            Err(e) => {},
        }
    }
}

pub proof fn lemma_consume_args_frame(
    s: GulletView,
    num_args: nat,
    delimiters: Option<Seq<Seq<char>>>,
)
    requires
        s.wf(),
    ensures
        ({
            let r = s.consume_args(num_args, delimiters);
            &&& r.state.wf()
            &&& r.state.macros == s.macros
            &&& r.state.expansion_count == s.expansion_count
            &&& r.state.max_expand == s.max_expand
            &&& r.state.mode == s.mode
            &&& r.state.lexer.input == s.lexer.input
            &&& r.state.lexer.id == s.lexer.id
            &&& r.result matches Ok(args) ==> args.len() == num_args
        }),
{
    reveal(GulletView::consume_args);
    match delimiters {
        Some(d) => {
            if d.len() == num_args + 1 {
                lemma_match_delimiter_frame(s, d[0], 0);
                let head = s.match_delimiter(d[0], 0);
                if head.result is Ok {
                    lemma_collect_arguments_frame(
                        head.state,
                        num_args,
                        delimiters,
                        0,
                        Seq::empty(),
                    );
                }
            }
        },
        None => {
            lemma_collect_arguments_frame(s, num_args, delimiters, 0, Seq::empty());
        },
    }
}

/// One expansion step leaves the macros, the limit, the mode and the
/// lexer's input as they were. Where a macro was expanded, the count has
/// grown by one; where none was, the state is the old one with the token
/// taken off and put back.
pub proof fn lemma_expand_once_frame(s: GulletView, expandable_only: bool)
    requires
        s.wf(),
    ensures
        ({
            let r = s.expand_once(expandable_only);
            &&& r.state.wf()
            &&& r.state.macros == s.macros
            &&& r.state.max_expand == s.max_expand
            &&& r.state.mode == s.mode
            &&& r.state.lexer.input == s.lexer.input
            &&& r.state.lexer.id == s.lexer.id
            &&& s.expansion_count <= r.state.expansion_count <= s.expansion_count + 1
            &&& (r.result matches Ok(n) && n is Some) ==> r.state.expansion_count
                == s.expansion_count + 1
            &&& r.result == Ok::<Option<nat>, ParseErrorView>(None) ==> r.state == s.pop().1.push(
                s.pop().0,
            )
        }),
{
    reveal(GulletView::expand_once);
    lemma_pop_decreases(s);
    let (top, state) = s.pop();
    let expansion = if top.is_noexpand() {
        None
    } else {
        state.get_expansion(top.text)
    };
    match expansion {
        None => {},
        Some(expansion) => {
            let counted = state.count_expansion(1);
            if counted.result is Ok {
                lemma_consume_args_frame(counted.state, expansion.num_args, expansion.delimiters);
            }
        },
    }
}

/// What a token counts for in the measure of what is left to read: an end
/// marker counts nothing, every other token one. (An end marker that is to
/// come out as `\relax` is no end marker.)
pub open spec fn weight(token: TokenView) -> int {
    if token.text == eof_text() && !token.is_relax() {
        0
    } else {
        1
    }
}

/// The sum of the weights of `tokens`.
pub open spec fn total_weight(tokens: Seq<TokenView>) -> int
    decreases tokens.len(),
{
    if tokens.len() == 0 {
        0
    } else {
        total_weight(tokens.drop_last()) + weight(tokens.last())
    }
}

/// How far a state is from the end of its work: the expansions still
/// allowed, then the weight of what is still to be read.
pub struct Measure {
    pub fuel: int,
    pub pending: int,
}

impl Measure {
    /// Lexicographic order.
    pub open spec fn below(self, other: Measure) -> bool {
        self.fuel < other.fuel || (self.fuel == other.fuel && self.pending < other.pending)
    }

    pub open spec fn within(self, other: Measure) -> bool {
        self.fuel < other.fuel || (self.fuel == other.fuel && self.pending <= other.pending)
    }

    /// The measure with `w` more to read.
    pub open spec fn plus(self, w: int) -> Measure {
        Measure { pending: self.pending + w, ..self }
    }
}

impl GulletView {
    /// The weight of what is still to be read.
    pub open spec fn pending(self) -> int {
        total_weight(self.stack) + (self.lexer.input.len() - self.lexer.pos)
    }

    pub open spec fn measure(self) -> Measure {
        Measure { fuel: self.fuel(), pending: self.pending() }
    }

    /// The parts of the state that reading and expanding leave alone.
    pub open spec fn same_frame(self, other: GulletView) -> bool {
        &&& self.macros == other.macros
        &&& self.max_expand == other.max_expand
        &&& self.mode == other.mode
        &&& self.lexer.input == other.lexer.input
        &&& self.lexer.id == other.lexer.id
    }
}

pub proof fn lemma_total_weight_bounds(tokens: Seq<TokenView>)
    ensures
        0 <= total_weight(tokens) <= tokens.len(),
    decreases tokens.len(),
{
    if tokens.len() > 0 {
        lemma_total_weight_bounds(tokens.drop_last());
    }
}

pub proof fn lemma_total_weight_push(tokens: Seq<TokenView>, token: TokenView)
    ensures
        total_weight(tokens.push(token)) == total_weight(tokens) + weight(token),
{
    assert(tokens.push(token).drop_last() =~= tokens);
}

pub proof fn lemma_total_weight_add(a: Seq<TokenView>, b: Seq<TokenView>)
    ensures
        total_weight(a + b) == total_weight(a) + total_weight(b),
    decreases b.len(),
{
    if b.len() == 0 {
        assert(a + b =~= a);
    } else {
        assert((a + b).drop_last() =~= a + b.drop_last());
        lemma_total_weight_add(a, b.drop_last());
    }
}

pub proof fn lemma_total_weight_reverse(a: Seq<TokenView>)
    ensures
        total_weight(a.reverse()) == total_weight(a),
    decreases a.len(),
{
    if a.len() > 0 {
        assert(a.reverse() =~= seq![a.last()] + a.drop_last().reverse());
        lemma_total_weight_add(seq![a.last()], a.drop_last().reverse());
        lemma_total_weight_reverse(a.drop_last());
        lemma_total_weight_push(Seq::empty(), a.last());
        assert(Seq::<TokenView>::empty().push(a.last()) =~= seq![a.last()]);
    }
}

pub proof fn lemma_total_weight_subrange(a: Seq<TokenView>, i: int, j: int)
    requires
        0 <= i <= j <= a.len(),
    ensures
        0 <= total_weight(a.subrange(i, j)) <= total_weight(a),
{
    assert(a =~= a.subrange(0, i) + a.subrange(i, j) + a.subrange(j, a.len() as int));
    lemma_total_weight_add(a.subrange(0, i) + a.subrange(i, j), a.subrange(j, a.len() as int));
    lemma_total_weight_add(a.subrange(0, i), a.subrange(i, j));
    lemma_total_weight_bounds(a.subrange(0, i));
    lemma_total_weight_bounds(a.subrange(i, j));
    lemma_total_weight_bounds(a.subrange(j, a.len() as int));
}

/// Looking at the next token leaves the weight as it is or lowers it;
/// taking the token off lowers it by the token's weight at least.
pub proof fn lemma_pop_pending(s: GulletView)
    requires
        s.wf(),
    ensures
        s.future().1.pending() <= s.pending(),
        s.pop().1.pending() + weight(s.pop().0) <= s.pending(),
        s.pop().1.pending() >= 0,
        s.pending() >= 0,
        s.future().1.same_frame(s),
        s.pop().1.same_frame(s),
        s.future().1.expansion_count == s.expansion_count,
        s.pop().1.expansion_count == s.expansion_count,
{
    lemma_next_lexeme_bounds(s.lexer.input, s.lexer.pos);
    lemma_total_weight_bounds(s.stack);
    if s.stack.len() == 0 {
        let token = s.lexer.next_token();
        assert(seq![token].drop_last() =~= Seq::<TokenView>::empty());
        lemma_total_weight_push(Seq::empty(), token);
        assert(Seq::<TokenView>::empty().push(token) =~= seq![token]);
        assert(total_weight(Seq::<TokenView>::empty()) == 0);
    } else {
        lemma_total_weight_bounds(s.stack.drop_last());
    }
}

pub proof fn lemma_push_pending(s: GulletView, token: TokenView)
    ensures
        s.push(token).pending() == s.pending() + weight(token),
{
    lemma_total_weight_push(s.stack, token);
}

pub proof fn lemma_push_all_pending(s: GulletView, tokens: Seq<TokenView>)
    ensures
        s.push_all(tokens).pending() == s.pending() + total_weight(tokens),
{
    lemma_total_weight_add(s.stack, tokens);
}

/// Reading an argument's tokens lowers the weight by that of the tokens
/// read at least.
pub proof fn lemma_scan_pending(
    s: GulletView,
    delims: Seq<char>,
    acc: Seq<TokenView>,
    depth: nat,
    matched: nat,
)
    requires
        s.wf(),
        matched <= acc.len(),
    ensures
        ({
            let r = s.scan_argument_tokens(delims, acc, depth, matched);
            r.result matches Ok(read) ==> r.state.pending() + total_weight(read.0) <= s.pending()
                + total_weight(acc) && r.state.pending() >= 0
        }),
    decreases s.remaining(),
{
    reveal(GulletView::scan_argument_tokens);
    lemma_pop_decreases(s);
    lemma_pop_pending(s);
    let (token, state) = s.pop();
    let acc1 = acc.push(token);
    lemma_total_weight_push(acc, token);
    if token.text == "}"@ && depth == 0 {
    } else if token.text == eof_text() {
    } else {
        let depth1 = if token.text == "{"@ {
            depth + 1
        } else if token.text == "}"@ {
            (depth - 1) as nat
        } else {
            depth
        };
        if delims.len() > 0 {
            if matched < delims.len() && (depth1 == 0 || (depth1 == 1 && delims[matched as int]
                == '{')) && token.text == seq![delims[matched as int]] {
                if matched + 1 == delims.len() {
                    lemma_total_weight_subrange(acc1, 0, acc1.len() - delims.len());
                } else {
                    lemma_scan_pending(state, delims, acc1, depth1, matched + 1);
                }
            } else {
                lemma_scan_pending(state, delims, acc1, depth1, 0);
            }
        } else if depth1 == 0 {
        } else {
            lemma_scan_pending(state, delims, acc1, depth1, 0);
        }
    }
}

/// Reading one argument lowers the weight by that of the argument at least.
pub proof fn lemma_consume_arg_pending(s: GulletView, delims: Option<Seq<char>>)
    requires
        s.wf(),
    ensures
        ({
            let r = s.consume_arg(delims);
            &&& r.state.wf()
            &&& r.state.same_frame(s)
            &&& r.state.expansion_count == s.expansion_count
            &&& r.result matches Ok(arg) ==> r.state.pending() + total_weight(arg.tokens)
                <= s.pending() && r.state.pending() >= 0
        }),
{
    reveal(GulletView::consume_arg);
    lemma_pop_decreases(s);
    lemma_pop_pending(s);
    lemma_consume_arg_frame(s, delims);
    let d = match delims {
        Some(d) => d,
        None => Seq::empty(),
    };
    lemma_scan_pending(s.future().1, d, Seq::empty(), 0, 0);
    let scan = s.future().1.scan_argument_tokens(d, Seq::empty(), 0, 0);
    match scan.result {
        Ok((tokens, end)) => {
            lemma_total_weight_reverse(tokens);
            if is_single_group(tokens) {
                lemma_total_weight_subrange(tokens, 1, tokens.len() - 1);
                lemma_total_weight_reverse(tokens.subrange(1, tokens.len() - 1));
            }
        },
        Err(e) => {},
    }
}

/// Taking the spaces off does not raise the weight.
pub proof fn lemma_consume_spaces_pending(s: GulletView)
    requires
        s.wf(),
    ensures
        s.consume_spaces().wf(),
        s.consume_spaces().same_frame(s),
        s.consume_spaces().expansion_count == s.expansion_count,
        s.consume_spaces().pending() <= s.pending(),
    decreases s.remaining(),
{
    reveal(GulletView::consume_spaces);
    lemma_pop_decreases(s);
    lemma_pop_pending(s);
    lemma_space_is_not_eof();
    let (token, state) = s.future();
    if token.text == " "@ {
        lemma_consume_spaces_pending(s.pop().1);
    }
}

/// Putting an argument back for parsing does not raise the weight.
pub proof fn lemma_scan_argument_pending(s: GulletView, is_optional: bool)
    requires
        s.wf(),
    ensures
        ({
            let r = s.scan_argument(is_optional);
            &&& r.state.wf()
            &&& r.state.same_frame(s)
            &&& r.state.expansion_count == s.expansion_count
            &&& r.result is Ok ==> r.state.pending() <= s.pending()
        }),
{
    reveal(GulletView::scan_argument);
    if is_optional {
        lemma_consume_spaces_pending(s);
        let s1 = s.consume_spaces();
        lemma_pop_pending(s1);
        lemma_pop_decreases(s1);
        let (next, s2) = s1.future();
        if next.text == "["@ {
            lemma_pop_pending(s2);
            lemma_pop_decreases(s2);
            let (start, s3) = s2.pop();
            lemma_consume_arg_pending(s3, Some("]"@));
            let read = s3.consume_arg(Some("]"@));
            match read.result {
                Ok(arg) => {
                    let marker = TokenView::plain(eof_text(), arg.end.loc);
                    lemma_push_pending(read.state, marker);
                    lemma_push_all_pending(read.state.push(marker), arg.tokens);
                },
                Err(e) => {},
            }
        }
    } else {
        lemma_consume_arg_pending(s, None);
        let read = s.consume_arg(None);
        match read.result {
            Ok(arg) => {
                let marker = TokenView::plain(eof_text(), arg.end.loc);
                lemma_push_pending(read.state, marker);
                lemma_push_all_pending(read.state.push(marker), arg.tokens);
            },
            Err(e) => {},
        }
    }
}

/// Expanding up to the next token that is no macro and taking that token
/// off either uses up an expansion or lowers the weight by the token's.
pub proof fn lemma_expand_next_token_measure(s: GulletView)
    requires
        s.wf(),
    ensures
        ({
            let r = s.expand_next_token();
            &&& r.state.wf()
            &&& r.state.same_frame(s)
            &&& r.state.fuel() <= s.fuel()
            &&& r.result matches Ok(token) ==> r.state.measure().plus(weight(token)).within(
                s.measure(),
            ) && r.state.pending() >= 0
        }),
    decreases s.fuel(),
{
    reveal(GulletView::expand_next_token);
    lemma_expand_once_frame(s, false);
    lemma_pop_pending(s);
    lemma_pop_decreases(s);
    let expanded = s.expand_once(false);
    match expanded.result {
        Ok(None) => {
            let top = s.pop().0;
            let popped = s.pop().1;
            assert(expanded.state == popped.push(top));
            assert(popped.push(top).pop() == (top, popped)) by {
                assert(popped.stack.push(top).drop_last() =~= popped.stack);
            }
            lemma_space_is_not_eof();
            reveal_strlit("\\relax");
            reveal_strlit("EOF");
            assert("\\relax"@.len() != "EOF"@.len());
        },
        Ok(Some(_)) => {
            lemma_expand_next_token_measure(expanded.state);
        },
        Err(e) => {},
    }
}

} // verus!
