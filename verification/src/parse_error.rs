//! The error that parsing reports.
//!
//! An error tells what went wrong and, where the offending token has a place
//! in the input at hand, where: its position and length, and the text around
//! it with the token underlined.

use vstd::prelude::*;
use crate::lexer::{Lexer, LexerView};
use crate::text::{decimal, push_decimal, push_range, push_str, string_from};
use crate::token::{Token, TokenView};

verus! {

/// What went wrong.
#[derive(Clone, Copy, Debug, PartialEq, Eq, Structural)]
pub enum ParseErrorKind {
    /// A control sequence that nothing defines.
    UndefinedControlSequence,
    /// More macro expansions than the settings allow.
    TooManyExpansions,
    /// A closing brace that closes nothing.
    UnbalancedBrace,
    /// The input ended inside a macro argument.
    UnexpectedEof,
    /// The use of a macro does not match the delimiters of its definition.
    DelimiterMismatch,
    /// `#` before something that is no argument number.
    InvalidPlaceholder,
    /// `#` at the very end of a macro body.
    IncompletePlaceholder,
    /// More than one infix operator in one group.
    MultipleInfixOperators,
    /// Another token than the one that the grammar asks for.
    UnexpectedToken,
    /// A command that needs display mode, outside of it.
    DisplayModeRequired,
    /// A group closed that was never opened.
    Scope,
    /// A command without the argument it needs.
    MissingArgument,
    /// A command in a mode that does not allow it.
    WrongMode,
    /// A definition that cannot be read.
    InvalidDefinition,
    /// A command that the parser cannot call.
    NoFunctionHandler,
    /// A second tag for one equation.
    DuplicateTag,
    /// Groups or arguments nested deeper than the parser follows.
    NestingTooDeep,
    /// Something that is no delimiter where one must stand.
    InvalidDelimiter,
    /// `\middle` outside of `\left` and `\right`.
    MiddleWithoutLeft,
    /// A second superscript or a second subscript on one base.
    DoubleScript,
}

/// The main error type. It tells problems of the expression that the user
/// provided apart from faults of the program.
#[derive(Debug)]
pub struct ParseError {
    pub kind: ParseErrorKind,
    /// Start of the offending text.
    pub position: Option<usize>,
    /// Length of the offending text.
    pub length: Option<usize>,
    /// The message with position and context.
    pub message: String,
    /// The message without any context added.
    pub raw_message: String,
}

pub struct ParseErrorView {
    pub kind: ParseErrorKind,
    pub position: Option<usize>,
    pub length: Option<usize>,
    pub message: Seq<char>,
    pub raw_message: Seq<char>,
}

impl View for ParseError {
    type V = ParseErrorView;

    open spec fn view(&self) -> ParseErrorView {
        ParseErrorView {
            kind: self.kind,
            position: self.position,
            length: self.length,
            message: self.message@,
            raw_message: self.raw_message@,
        }
    }
}

/// How much context an error shows on each side of the offending text.
pub const CONTEXT: usize = 15;

/// The mark that stands for context cut off.
pub open spec fn ellipsis() -> char {
    '\u{2026}'
}

/// The combining low line that underlines the character before it.
pub open spec fn underscore() -> char {
    '\u{0332}'
}

/// `text` with every character but the line break underlined.
pub open spec fn underlined(text: Seq<char>) -> Seq<char>
    decreases text.len(),
{
    if text.len() == 0 {
        Seq::empty()
    } else if text.last() == '\n' {
        underlined(text.drop_last()).push(text.last())
    } else {
        underlined(text.drop_last()).push(text.last()).push(underscore())
    }
}

/// The part of `token`'s location that lies in the input of `source`: start
/// and end, if the token has a location, the location names this lexer, and
/// the range is in order and inside the input.
pub open spec fn span_of(token: Option<TokenView>, source: LexerView) -> Option<(usize, usize)> {
    match token {
        Some(t) => match t.loc {
            Some(loc) => if source.id == Some(loc.lexer) && loc.start <= loc.end
                <= source.input.len() {
                Some((loc.start, loc.end))
            } else {
                None
            },
            None => None,
        },
        None => None,
    }
}

/// Up to fifteen characters of `input` before `start`, marked where more were
/// cut off.
pub open spec fn context_before(input: Seq<char>, start: int) -> Seq<char> {
    if start > CONTEXT {
        seq![ellipsis()] + input.subrange(start - CONTEXT, start)
    } else {
        input.subrange(0, start)
    }
}

/// Up to fifteen characters of `input` from `end` on, marked where more were
/// cut off.
pub open spec fn context_after(input: Seq<char>, end: int) -> Seq<char> {
    if end + CONTEXT < input.len() {
        input.subrange(end, end + CONTEXT).push(ellipsis())
    } else {
        input.subrange(end, input.len() as int)
    }
}

/// The full message: the plain one and, for a located error, the position
/// and the surrounding text.
pub open spec fn full_message(
    message: Seq<char>,
    span: Option<(usize, usize)>,
    input: Seq<char>,
) -> Seq<char> {
    let head = "KaTeX parse error: "@ + message;
    match span {
        Some((start, end)) => {
            let place = if start == input.len() {
                " at end of input: "@
            } else {
                " at position "@ + decimal((start + 1) as nat) + ": "@
            };
            head + place + context_before(input, start as int) + underlined(
                input.subrange(start as int, end as int),
            ) + context_after(input, end as int)
        },
        None => head,
    }
}

impl ParseError {
    /// The error of kind `kind` with the message `message`, raised at `token`
    /// while reading the input of `source`.
    pub open spec fn spec_new(
        kind: ParseErrorKind,
        message: Seq<char>,
        token: Option<TokenView>,
        source: LexerView,
    ) -> ParseErrorView {
        let span = span_of(token, source);
        ParseErrorView {
            kind,
            position: match span {
                Some((start, end)) => Some(start),
                None => None,
            },
            length: match span {
                Some((start, end)) => Some((end - start) as usize),
                None => None,
            },
            message: full_message(message, span, source.input),
            raw_message: message,
        }
    }

    /// Builds the error of kind `kind` with the message `message`. If `token`
    /// has a location in the input of `source`, the error carries its
    /// position and length, and its full message shows where it is.
    pub fn new(kind: ParseErrorKind, message: &str, token: Option<&Token>, source: &Lexer) -> (error:
        ParseError)
        ensures
            error@ == Self::spec_new(
                kind,
                message@,
                match token {
                    Some(t) => Some(t@),
                    None => None,
                },
                source@,
            ),
    {
        let input = source.input();
        let mut text: Vec<char> = Vec::new();
        push_str(&mut text, "KaTeX parse error: ");
        push_str(&mut text, message);
        assert(text@ =~= "KaTeX parse error: "@ + message@);
        let mut position: Option<usize> = None;
        let mut length: Option<usize> = None;
        if let Some(token) = token {
            if let Some(loc) = token.loc {
                if source.id() == Some(loc.lexer) && loc.start <= loc.end && loc.end
                    <= input.len() {
                    let start = loc.start;
                    let end = loc.end;
                    position = Some(start);
                    length = Some(end - start);
                    let ghost head = text@;
                    if start == input.len() {
                        push_str(&mut text, " at end of input: ");
                    } else {
                        push_str(&mut text, " at position ");
                        push_decimal(&mut text, start + 1);
                        push_str(&mut text, ": ");
                    }
                    let ghost placed = text@;
                    let ghost place = if start == input.len() {
                        " at end of input: "@
                    } else {
                        " at position "@ + decimal((start + 1) as nat) + ": "@
                    };
                    assert(placed =~= head + place);
                    if start > CONTEXT {
                        text.push('\u{2026}');
                        push_range(&mut text, input, start - CONTEXT, start);
                    } else {
                        push_range(&mut text, input, 0, start);
                    }
                    assert(text@ =~= placed + context_before(input@, start as int));
                    let ghost before = text@;
                    let mut i: usize = start;
                    assert(input@.subrange(start as int, i as int) =~= Seq::<char>::empty());
                    while i < end
                        invariant
                            start <= i <= end <= input.len(),
                            text@ == before + underlined(input@.subrange(start as int, i as int)),
                        decreases end - i,
                    {
                        let c = input[i];
                        text.push(c);
                        if c != '\n' {
                            text.push('\u{0332}');
                        }
                        i += 1;
                        proof {
                            let part = input@.subrange(start as int, i as int);
                            assert(part.drop_last() =~= input@.subrange(start as int, i - 1));
                            assert(part.last() == c);
                            assert(text@ =~= before + underlined(part));
                        }
                    }
                    let ghost marked = text@;
                    if end < input.len() && input.len() - end > CONTEXT {
                        push_range(&mut text, input, end, end + CONTEXT);
                        text.push('\u{2026}');
                    } else {
                        push_range(&mut text, input, end, input.len());
                    }
                    assert(text@ =~= marked + context_after(input@, end as int));
                    assert(text@ =~= full_message(message@, Some((start, end)), input@));
                    assert(span_of(Some(token@), source@) == Some((start, end)));
                }
            }
        }
        ParseError {
            kind,
            position,
            length,
            message: string_from(&text),
            raw_message: String::from_str(message),
        }
    }

    /// The full message, as text.
    pub fn to_string(&self) -> (s: String)
        ensures
            s@ == self@.message,
    {
        self.message.clone()
    }
}

} // verus!
