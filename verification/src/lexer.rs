//! The lexer: cuts a source text into tokens, one at a time.
//!
//! A token is a run of whitespace (read as one space), a control word (a
//! backslash and letters; whitespace after it is skipped), a control symbol (a
//! backslash and one other character) or a single character. `%` starts a
//! comment that runs to the end of the line. Every text can be cut: a backslash
//! at the very end stands alone.

use vstd::prelude::*;
use crate::source_location::SourceLocation;
use crate::text::{chars_of, string_of};
use crate::token::{Token, TokenView, lemma_token_views_push, token_views};

verus! {

/// Whitespace between tokens.
pub open spec fn is_space(c: char) -> bool {
    c == ' ' || c == '\t' || c == '\n' || c == '\r'
}

/// A character of a control word.
pub open spec fn is_letter(c: char) -> bool {
    ('a' <= c && c <= 'z') || ('A' <= c && c <= 'Z') || c == '@'
}

/// The category code of a character that has a special one: 14 for the
/// comment character, 13 for an active character.
pub open spec fn catcode(c: char) -> Option<u8> {
    if c == '%' {
        Some(14u8)
    } else if c == '~' {
        Some(13u8)
    } else {
        None
    }
}

/// The first position from `pos` on that holds no whitespace.
pub open spec fn skip_spaces(input: Seq<char>, pos: int) -> int
    decreases input.len() - pos,
{
    if 0 <= pos < input.len() && is_space(input[pos]) {
        skip_spaces(input, pos + 1)
    } else {
        pos
    }
}

/// The first position from `pos` on that holds no letter.
pub open spec fn skip_letters(input: Seq<char>, pos: int) -> int
    decreases input.len() - pos,
{
    if 0 <= pos < input.len() && is_letter(input[pos]) {
        skip_letters(input, pos + 1)
    } else {
        pos
    }
}

/// The position after the end of the line that `pos` is in.
pub open spec fn skip_line(input: Seq<char>, pos: int) -> int
    decreases input.len() - pos,
{
    if 0 <= pos < input.len() {
        if input[pos] == '\n' {
            pos + 1
        } else {
            skip_line(input, pos + 1)
        }
    } else {
        pos
    }
}

/// One cut of the input: the token's text, the range it is reported at, and
/// the position where the next cut starts.
pub struct Lexeme {
    pub eof: bool,
    pub text: Seq<char>,
    pub start: int,
    pub end: int,
    pub next: int,
}

/// The text of the token that marks the end of the input.
pub open spec fn eof_text() -> Seq<char> {
    "EOF"@
}

/// The cut that starts at `pos`, which holds no comment character.
pub open spec fn lexeme_at(input: Seq<char>, pos: int) -> Lexeme
    recommends
        0 <= pos < input.len(),
{
    let c = input[pos];
    if is_space(c) {
        let end = skip_spaces(input, pos + 1);
        Lexeme { eof: false, text: seq![' '], start: pos, end, next: end }
    } else if c == '\\' {
        if pos + 1 >= input.len() {
            Lexeme { eof: false, text: seq!['\\'], start: pos, end: pos + 1, next: pos + 1 }
        } else if is_letter(input[pos + 1]) {
            let end = skip_letters(input, pos + 2);
            Lexeme {
                eof: false,
                text: input.subrange(pos, end),
                start: pos,
                end,
                next: skip_spaces(input, end),
            }
        } else if is_space(input[pos + 1]) {
            Lexeme {
                eof: false,
                text: seq!['\\', ' '],
                start: pos,
                end: pos + 2,
                next: skip_spaces(input, pos + 2),
            }
        } else {
            Lexeme {
                eof: false,
                text: input.subrange(pos, pos + 2),
                start: pos,
                end: pos + 2,
                next: pos + 2,
            }
        }
    } else {
        Lexeme { eof: false, text: seq![c], start: pos, end: pos + 1, next: pos + 1 }
    }
}

/// The next cut from `pos` on, comments left out; at the end of the input, the
/// end marker.
pub open spec fn next_lexeme(input: Seq<char>, pos: int) -> Lexeme
    decreases input.len() - pos,
{
    if 0 <= pos < input.len() {
        if input[pos] == '%' {
            proof {
                lemma_skip_line_bounds(input, pos + 1);
            }
            next_lexeme(input, skip_line(input, pos + 1))
        } else {
            lexeme_at(input, pos)
        }
    } else {
        Lexeme {
            eof: true,
            text: eof_text(),
            start: input.len() as int,
            end: input.len() as int,
            next: input.len() as int,
        }
    }
}

/// The token that a cut yields; `id` is the lexer's identity, and a lexer
/// without one yields tokens without a location.
pub open spec fn lexeme_token(lexeme: Lexeme, id: Option<usize>) -> TokenView {
    TokenView::plain(
        lexeme.text,
        match id {
            Some(lexer) => Some(
                SourceLocation { lexer, start: lexeme.start as usize, end: lexeme.end as usize },
            ),
            None => None,
        },
    )
}

/// All tokens from `pos` to the end of the input, the end marker left out.
pub open spec fn tokens_from(input: Seq<char>, pos: int, id: Option<usize>) -> Seq<TokenView>
    decreases input.len() - pos,
{
    let lexeme = next_lexeme(input, pos);
    if 0 <= pos < input.len() && !lexeme.eof {
        proof {
            lemma_next_lexeme_bounds(input, pos);
        }
        seq![lexeme_token(lexeme, id)] + tokens_from(input, lexeme.next, id)
    } else {
        Seq::empty()
    }
}

/// The token that marks the end of `input`.
pub open spec fn eof_token(input: Seq<char>, id: Option<usize>) -> TokenView {
    lexeme_token(next_lexeme(input, input.len() as int), id)
}

pub proof fn lemma_skip_spaces_bounds(input: Seq<char>, pos: int)
    requires
        0 <= pos <= input.len(),
    ensures
        pos <= skip_spaces(input, pos) <= input.len(),
    decreases input.len() - pos,
{
    if pos < input.len() && is_space(input[pos]) {
        lemma_skip_spaces_bounds(input, pos + 1);
    }
}

pub proof fn lemma_skip_letters_bounds(input: Seq<char>, pos: int)
    requires
        0 <= pos <= input.len(),
    ensures
        pos <= skip_letters(input, pos) <= input.len(),
    decreases input.len() - pos,
{
    if pos < input.len() && is_letter(input[pos]) {
        lemma_skip_letters_bounds(input, pos + 1);
    }
}

pub proof fn lemma_skip_line_bounds(input: Seq<char>, pos: int)
    requires
        0 <= pos <= input.len(),
    ensures
        pos <= skip_line(input, pos) <= input.len(),
    decreases input.len() - pos,
{
    if pos < input.len() && input[pos] != '\n' {
        lemma_skip_line_bounds(input, pos + 1);
    }
}

pub proof fn lemma_lexeme_at_bounds(input: Seq<char>, pos: int)
    requires
        0 <= pos < input.len(),
    ensures
        ({
            let l = lexeme_at(input, pos);
            &&& !l.eof
            &&& l.start == pos
            &&& pos < l.end <= l.next <= input.len()
        }),
{
    lemma_skip_spaces_bounds(input, pos + 1);
    if pos + 1 < input.len() {
        lemma_skip_letters_bounds(input, pos + 2);
        lemma_skip_spaces_bounds(input, skip_letters(input, pos + 2));
        lemma_skip_spaces_bounds(input, pos + 2);
    }
}

/// Every cut but the end marker takes at least one character.
pub proof fn lemma_next_lexeme_bounds(input: Seq<char>, pos: int)
    requires
        0 <= pos <= input.len(),
    ensures
        ({
            let l = next_lexeme(input, pos);
            &&& pos <= l.start <= l.end <= l.next <= input.len()
            &&& !l.eof ==> pos < l.next && l.start < l.end
            &&& l.eof ==> l.text == eof_text() && l.start == input.len() && l.next
                == input.len()
        }),
    decreases input.len() - pos,
{
    if pos < input.len() {
        if input[pos] == '%' {
            lemma_skip_line_bounds(input, pos + 1);
            lemma_next_lexeme_bounds(input, skip_line(input, pos + 1));
        } else {
            lemma_lexeme_at_bounds(input, pos);
        }
    }
}

/// A lexer over one input text.
#[derive(Debug)]
pub struct Lexer {
    input: Vec<char>,
    pos: usize,
    id: Option<usize>,
}

/// What a lexer is: its input, how far it has read, and its identity.
pub struct LexerView {
    pub input: Seq<char>,
    pub pos: int,
    pub id: Option<usize>,
}

impl LexerView {
    /// The tokens that are still to come, the end marker left out.
    pub open spec fn rest(self) -> Seq<TokenView> {
        tokens_from(self.input, self.pos, self.id)
    }

    /// The token that the lexer yields once its input is used up.
    pub open spec fn eof(self) -> TokenView {
        eof_token(self.input, self.id)
    }

    /// The token that the next call of `lex` yields.
    pub open spec fn next_token(self) -> TokenView {
        lexeme_token(next_lexeme(self.input, self.pos), self.id)
    }

    /// The lexer after that call.
    pub open spec fn advance(self) -> LexerView {
        LexerView { pos: next_lexeme(self.input, self.pos).next, ..self }
    }
}

impl View for Lexer {
    type V = LexerView;

    closed spec fn view(&self) -> LexerView {
        LexerView {
            input: self.input@,
            pos: if self.pos <= self.input.len() {
                self.pos as int
            } else {
                self.input.len() as int
            },
            id: self.id,
        }
    }
}

impl Lexer {
    /// The lexer's position lies inside its input.
    #[verifier::type_invariant]
    spec fn inv(self) -> bool {
        self.pos <= self.input.len()
    }

    /// A lexer never stands outside its input.
    pub proof fn lemma_in_bounds(&self)
        ensures
            0 <= self@.pos <= self@.input.len(),
    {
    }

    /// A lexer at the start of `input`.
    pub fn new(input: &str, id: Option<usize>) -> (lexer: Lexer)
        ensures
            lexer@ == (LexerView { input: input@, pos: 0, id }),
    {
        Lexer { input: chars_of(input), pos: 0, id }
    }

    /// The lexer's identity.
    pub fn id(&self) -> (id: Option<usize>)
        ensures
            id == self@.id,
    {
        self.id
    }

    /// The input text.
    pub fn input(&self) -> (input: &Vec<char>)
        ensures
            input@ == self@.input,
    {
        &self.input
    }

    fn scan_spaces(&self, from: usize) -> (to: usize)
        requires
            from <= self.input.len(),
        ensures
            to == skip_spaces(self.input@, from as int),
            from <= to <= self.input.len(),
    {
        let mut i: usize = from;
        while i < self.input.len() && is_space_char(self.input[i])
            invariant
                from <= i <= self.input.len(),
                skip_spaces(self.input@, i as int) == skip_spaces(self.input@, from as int),
            decreases self.input.len() - i,
        {
            i += 1;
        }
        i
    }

    fn scan_letters(&self, from: usize) -> (to: usize)
        requires
            from <= self.input.len(),
        ensures
            to == skip_letters(self.input@, from as int),
            from <= to <= self.input.len(),
    {
        let mut i: usize = from;
        while i < self.input.len() && is_letter_char(self.input[i])
            invariant
                from <= i <= self.input.len(),
                skip_letters(self.input@, i as int) == skip_letters(self.input@, from as int),
            decreases self.input.len() - i,
        {
            i += 1;
        }
        i
    }

    fn scan_line(&self, from: usize) -> (to: usize)
        requires
            from <= self.input.len(),
        ensures
            to == skip_line(self.input@, from as int),
            from <= to <= self.input.len(),
    {
        let mut i: usize = from;
        while i < self.input.len() && self.input[i] != '\n'
            invariant
                from <= i <= self.input.len(),
                skip_line(self.input@, i as int) == skip_line(self.input@, from as int),
            decreases self.input.len() - i,
        {
            i += 1;
        }
        if i < self.input.len() {
            i + 1
        } else {
            i
        }
    }

    fn token(&self, text: String, start: usize, end: usize) -> (token: Token)
        ensures
            token@ == TokenView::plain(
                text@,
                match self.id {
                    Some(lexer) => Some(SourceLocation { lexer, start, end }),
                    None => None,
                },
            ),
    {
        match self.id {
            Some(lexer) => Token::new(text, Some(SourceLocation::new(lexer, start, end))),
            None => Token::new(text, None),
        }
    }

    /// Reads the next token; at the end of the input, the end marker, as often
    /// as it is asked for.
    pub fn lex(&mut self) -> (token: Token)
        ensures
            token@ == old(self)@.next_token(),
            final(self)@ == old(self)@.advance(),
    {
        self.cut().0
    }

    /// Reads the next token, and tells whether it is the end marker.
    fn cut(&mut self) -> (r: (Token, bool))
        ensures
            r.0@ == old(self)@.next_token(),
            r.1 == next_lexeme(old(self)@.input, old(self)@.pos).eof,
            final(self)@ == old(self)@.advance(),
    {
        proof {
            use_type_invariant(&*self);
        }
        let ghost start_pos = self.pos as int;
        // Comments yield nothing: pass over them.
        while self.pos < self.input.len() && self.input[self.pos] == '%'
            invariant
                self.pos <= self.input.len(),
                self.input == old(self).input,
                self.id == old(self).id,
                next_lexeme(self.input@, self.pos as int) == next_lexeme(
                    self.input@,
                    start_pos,
                ),
            decreases self.input.len() - self.pos,
        {
            let after = self.scan_line(self.pos + 1);
            self.pos = after;
        }
        let pos = self.pos;
        let len = self.input.len();
        proof {
            lemma_next_lexeme_bounds(self.input@, pos as int);
        }
        if pos >= len {
            return (self.token(String::from_str("EOF"), len, len), true);
        }
        let c = self.input[pos];
        let token = if is_space_char(c) {
            let end = self.scan_spaces(pos + 1);
            self.pos = end;
            let text = string_of(&self.input, pos, pos + 1);
            assert(text@ =~= seq![c]);
            let token = self.token(String::from_str(" "), pos, end);
            proof {
                reveal_strlit(" ");
                assert(" "@ =~= seq![' ']);
            }
            token
        } else if c == '\\' {
            if pos + 1 >= len {
                self.pos = pos + 1;
                let text = string_of(&self.input, pos, pos + 1);
                assert(text@ =~= seq!['\\']);
                self.token(text, pos, pos + 1)
            } else if is_letter_char(self.input[pos + 1]) {
                let end = self.scan_letters(pos + 2);
                let next = self.scan_spaces(end);
                self.pos = next;
                let text = string_of(&self.input, pos, end);
                self.token(text, pos, end)
            } else if is_space_char(self.input[pos + 1]) {
                let next = self.scan_spaces(pos + 2);
                self.pos = next;
                let token = self.token(String::from_str("\\ "), pos, pos + 2);
                proof {
                    reveal_strlit("\\ ");
                    assert("\\ "@ =~= seq!['\\', ' ']);
                }
                token
            } else {
                self.pos = pos + 2;
                let text = string_of(&self.input, pos, pos + 2);
                self.token(text, pos, pos + 2)
            }
        } else {
            self.pos = pos + 1;
            let text = string_of(&self.input, pos, pos + 1);
            assert(text@ =~= seq![c]);
            self.token(text, pos, pos + 1)
        };
        (token, false)
    }
}

/// The tokens of `text`, in reading order, without locations and without
/// the end marker.
pub fn tokenize(text: &str) -> (tokens: Vec<Token>)
    ensures
        token_views(tokens@) == tokens_from(text@, 0, None),
{
    let mut lexer = Lexer::new(text, None);
    let mut tokens: Vec<Token> = Vec::new();
    assert(token_views(tokens@) + tokens_from(text@, 0, None) =~= tokens_from(text@, 0, None));
    loop
        invariant
            lexer@.input == text@,
            lexer@.id == None::<usize>,
            token_views(tokens@) + tokens_from(text@, lexer@.pos, None) == tokens_from(
                text@,
                0,
                None,
            ),
        ensures
            token_views(tokens@) == tokens_from(text@, 0, None),
        decreases text@.len() - lexer@.pos,
    {
        proof {
            lexer.lemma_in_bounds();
            lemma_next_lexeme_bounds(text@, lexer@.pos);
        }
        let ghost before = tokens@;
        let ghost pos = lexer@.pos;
        let (token, eof) = lexer.cut();
        if eof {
            assert(token_views(tokens@) + Seq::<TokenView>::empty() =~= token_views(tokens@));
            break ;
        }
        tokens.push(token);
        proof {
            lemma_token_views_push(before, token);
            assert(token_views(tokens@) + tokens_from(text@, lexer@.pos, None) =~= token_views(
                before,
            ) + tokens_from(text@, pos, None));
        }
    }
    tokens
}

/// Whether `c` is whitespace between tokens.
pub fn is_space_char(c: char) -> (b: bool)
    ensures
        b == is_space(c),
{
    c == ' ' || c == '\t' || c == '\n' || c == '\r'
}

/// Whether `c` is a character of a control word.
pub fn is_letter_char(c: char) -> (b: bool)
    ensures
        b == is_letter(c),
{
    ('a' <= c && c <= 'z') || ('A' <= c && c <= 'Z') || c == '@'
}

} // verus!
