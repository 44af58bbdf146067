//! Lexical tokens.

use vstd::prelude::*;
use crate::source_location::SourceLocation;
use crate::text::is_text;

verus! {

/// One lexical unit: its text and, where known, the place it came from.
///
/// A token without a location is synthetic; errors that point at it carry no
/// position.
#[derive(Debug, PartialEq, Eq)]
pub struct Token {
    pub text: String,
    pub loc: Option<SourceLocation>,
    /// Do not expand the token.
    pub noexpand: Option<bool>,
    /// Hand the token on as `\relax`.
    pub treat_as_relax: Option<bool>,
}

/// What a token is, as a mathematical value.
pub struct TokenView {
    pub text: Seq<char>,
    pub loc: Option<SourceLocation>,
    pub noexpand: Option<bool>,
    pub treat_as_relax: Option<bool>,
}

impl TokenView {
    /// A token with the given text and location and no flags.
    pub open spec fn plain(text: Seq<char>, loc: Option<SourceLocation>) -> TokenView {
        TokenView { text, loc, noexpand: None, treat_as_relax: None }
    }

    /// Whether the token is barred from expansion.
    pub open spec fn is_noexpand(self) -> bool {
        self.noexpand == Some(true)
    }

    /// Whether the token is to come out as `\relax`.
    pub open spec fn is_relax(self) -> bool {
        self.treat_as_relax == Some(true)
    }

    /// The token that covers the input from `self` to `end`.
    pub open spec fn range(self, end: TokenView, text: Seq<char>) -> TokenView {
        TokenView::plain(text, SourceLocation::spec_range(self.loc, end.loc))
    }
}

impl View for Token {
    type V = TokenView;

    open spec fn view(&self) -> TokenView {
        TokenView {
            text: self.text@,
            loc: self.loc,
            noexpand: self.noexpand,
            treat_as_relax: self.treat_as_relax,
        }
    }
}

/// The views of a sequence of tokens, in the same order.
pub open spec fn token_views(tokens: Seq<Token>) -> Seq<TokenView> {
    Seq::new(tokens.len(), |i: int| tokens[i]@)
}

/// The views of a sequence of token lists.
pub open spec fn token_list_views(lists: Seq<Vec<Token>>) -> Seq<Seq<TokenView>> {
    Seq::new(lists.len(), |i: int| token_views(lists[i]@))
}

pub proof fn lemma_token_views_push(tokens: Seq<Token>, t: Token)
    ensures
        token_views(tokens.push(t)) == token_views(tokens).push(t@),
{
    assert(token_views(tokens.push(t)) =~= token_views(tokens).push(t@));
}

pub proof fn lemma_token_views_drop_last(tokens: Seq<Token>)
    requires
        tokens.len() > 0,
    ensures
        token_views(tokens.drop_last()) == token_views(tokens).drop_last(),
{
    assert(token_views(tokens.drop_last()) =~= token_views(tokens).drop_last());
}

pub proof fn lemma_token_views_add(a: Seq<Token>, b: Seq<Token>)
    ensures
        token_views(a + b) == token_views(a) + token_views(b),
{
    assert(token_views(a + b) =~= token_views(a) + token_views(b));
}

pub proof fn lemma_token_views_subrange(a: Seq<Token>, i: int, j: int)
    requires
        0 <= i <= j <= a.len(),
    ensures
        token_views(a.subrange(i, j)) == token_views(a).subrange(i, j),
{
    assert(token_views(a.subrange(i, j)) =~= token_views(a).subrange(i, j));
}

impl Clone for Token {
    fn clone(&self) -> (copy: Self)
        ensures
            copy == *self,
    {
        Token {
            text: self.text.clone(),
            loc: self.loc,
            noexpand: self.noexpand,
            treat_as_relax: self.treat_as_relax,
        }
    }
}

impl Token {
    pub fn new(text: String, loc: Option<SourceLocation>) -> (token: Self)
        ensures
            token == (Token { text, loc, noexpand: None, treat_as_relax: None }),
            token@ == TokenView::plain(text@, loc),
    {
        Token { text, loc, noexpand: None, treat_as_relax: None }
    }

    /// Given a pair of tokens (`self` and `end_token`), the token with the given
    /// text that encompasses the whole input range enclosed by these two.
    pub fn range(&self, end_token: &Token, text: String) -> (token: Token)
        ensures
            token@ == self@.range(end_token@, text@),
    {
        Token::new(text, SourceLocation::range(self.loc.as_ref(), end_token.loc.as_ref()))
    }

    /// Whether the token's text is `lit`.
    pub fn is(&self, lit: &str) -> (b: bool)
        ensures
            b == (self@.text == lit@),
    {
        is_text(&self.text, lit)
    }

    /// Whether the token is barred from expansion.
    pub fn is_noexpand(&self) -> (b: bool)
        ensures
            b == self@.is_noexpand(),
    {
        match self.noexpand {
            Some(b) => b,
            None => false,
        }
    }

    /// Whether the token is to come out as `\relax`.
    pub fn is_relax(&self) -> (b: bool)
        ensures
            b == self@.is_relax(),
    {
        match self.treat_as_relax {
            Some(b) => b,
            None => false,
        }
    }
}

/// What has a place in the input of a lexer: tokens and locations. Errors
/// are positioned through this interface.
pub trait LexerInterface {
    /// The place, if it is known.
    spec fn place(&self) -> Option<SourceLocation>;

    fn location(&self) -> (loc: Option<SourceLocation>)
        ensures
            loc == self.place(),
    ;
}

impl LexerInterface for Token {
    open spec fn place(&self) -> Option<SourceLocation> {
        self.loc
    }

    fn location(&self) -> (loc: Option<SourceLocation>) {
        self.loc
    }
}

impl LexerInterface for SourceLocation {
    open spec fn place(&self) -> Option<SourceLocation> {
        Some(*self)
    }

    fn location(&self) -> (loc: Option<SourceLocation>) {
        Some(*self)
    }
}

/// A copy of `tokens`.
pub fn clone_tokens(tokens: &Vec<Token>) -> (copy: Vec<Token>)
    ensures
        copy@ == tokens@,
{
    let mut copy: Vec<Token> = Vec::new();
    let mut i: usize = 0;
    while i < tokens.len()
        invariant
            i <= tokens.len(),
            copy@ == tokens@.subrange(0, i as int),
        decreases tokens.len() - i,
    {
        copy.push(tokens[i].clone());
        i += 1;
        assert(copy@ =~= tokens@.subrange(0, i as int));
    }
    assert(tokens@.subrange(0, tokens.len() as int) =~= tokens@);
    copy
}

} // verus!
