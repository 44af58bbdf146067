//! The steps of a macro expansion that work on token lists alone.

use vstd::prelude::*;
use vstd::string::StrSliceExecFns;
use crate::gullet::{
    argument_number, balanced, balanced_from, count_char, is_single_group, prepend, substitute,
};
use crate::lexer::Lexer;
use crate::parse_error::{ParseError, ParseErrorKind, ParseErrorView};
use crate::text::chars_of;
use crate::token::{
    Token, TokenView, lemma_token_views_drop_last, lemma_token_views_push, token_list_views,
    token_views,
};

verus! {

/// What a call returned, as a mathematical value.
pub open spec fn tokens_outcome(r: Result<Vec<Token>, ParseError>) -> Result<
    Seq<TokenView>,
    ParseErrorView,
> {
    match r {
        Ok(t) => Ok(token_views(t@)),
        Err(e) => Err(e@),
    }
}

/// Whether `tokens` is exactly one group in braces.
pub fn single_group(tokens: &Vec<Token>) -> (b: bool)
    ensures
        b == is_single_group(token_views(tokens@)),
{
    let len = tokens.len();
    if len < 2 || !tokens[0].is("{") || !tokens[len - 1].is("}") {
        return false;
    }
    let ghost inner = token_views(tokens@).subrange(1, len - 1);
    let mut depth: usize = 0;
    let mut i: usize = 1;
    assert(inner.skip(0) =~= inner);
    while i < len - 1
        invariant
            1 <= i <= len - 1,
            len == tokens.len(),
            depth <= i,
            inner == token_views(tokens@).subrange(1, len - 1),
            balanced_from(inner.skip(i - 1), depth as int) == balanced(inner),
        decreases len - i,
    {
        assert(inner.skip(i - 1)[0] == tokens@[i as int]@);
        assert(inner.skip(i - 1).skip(1) =~= inner.skip(i as int));
        if tokens[i].is("{") {
            depth += 1;
        } else if tokens[i].is("}") {
            if depth == 0 {
                return false;
            }
            depth -= 1;
        }
        i += 1;
    }
    assert(inner.skip(len - 2).len() == 0);
    depth == 0
}

/// The tokens `tokens[from..to]` in reverse order.
pub fn reversed(tokens: Vec<Token>, from: usize, to: usize) -> (out: Vec<Token>)
    requires
        from <= to <= tokens.len(),
    ensures
        token_views(out@) == token_views(tokens@).subrange(from as int, to as int).reverse(),
{
    let mut tokens = tokens;
    let ghost all = token_views(tokens@);
    tokens.truncate(to);
    let mut out: Vec<Token> = Vec::new();
    assert(token_views(out@) =~= all.subrange(to as int, to as int).reverse());
    while tokens.len() > from
        invariant
            from <= tokens.len() <= to,
            to <= all.len(),
            token_views(tokens@) =~= all.subrange(0, tokens.len() as int),
            token_views(out@) == all.subrange(tokens.len() as int, to as int).reverse(),
        decreases tokens.len(),
    {
        let ghost before = out@;
        let ghost rest = tokens@;
        let token = tokens.pop().unwrap();
        out.push(token);
        proof {
            lemma_token_views_push(before, token);
            lemma_token_views_drop_last(rest);
            assert(token_views(rest)[rest.len() - 1] == token@);
            assert(all.subrange(0, rest.len() as int)[rest.len() - 1] == all[rest.len() - 1]);
            assert(token@ == all[tokens.len() as int]);
            assert(token_views(out@) =~= all.subrange(tokens.len() as int, to as int).reverse());
        }
    }
    out
}

/// The number of `#` in `text`.
pub fn count_hashes(text: &str) -> (n: usize)
    ensures
        n == count_char(text@, '#'),
{
    let chars = chars_of(text);
    let mut n: usize = 0;
    let mut i: usize = 0;
    assert(chars@.subrange(0, 0) =~= Seq::<char>::empty());
    while i < chars.len()
        invariant
            i <= chars.len(),
            n <= i,
            n == count_char(chars@.subrange(0, i as int), '#'),
        decreases chars.len() - i,
    {
        if chars[i] == '#' {
            n += 1;
        }
        i += 1;
        assert(chars@.subrange(0, i as int).drop_last() =~= chars@.subrange(0, i - 1));
    }
    assert(chars@.subrange(0, chars.len() as int) =~= chars@);
    n
}

/// The argument that `text` names, if it is one of the digits `1` to `9`.
pub fn digit_of(text: &str) -> (n: Option<usize>)
    ensures
        match n {
            Some(n) => argument_number(text@) == Some(n as nat),
            None => argument_number(text@) is None,
        },
{
    if text.unicode_len() == 1 {
        let c = text.get_char(0);
        if '1' <= c && c <= '9' {
            let d: u8 = c as u8;
            Some((d - 48) as usize)
        } else {
            None
        }
    } else {
        None
    }
}

pub proof fn lemma_prepend_twice(
    a: Seq<TokenView>,
    b: Seq<TokenView>,
    rest: Result<Seq<TokenView>, ParseErrorView>,
)
    ensures
        prepend(a, prepend(b, rest)) == prepend(a + b, rest),
{
    match rest {
        Ok(r) => {
            assert(a + (b + r) =~= (a + b) + r);
        },
        Err(e) => {},
    }
}

/// Replaces the placeholders in a macro body by the arguments. `body` and
/// each argument are stored reversed; the result is in reading order.
pub fn substitute_tokens(body: &Vec<Token>, args: &Vec<Vec<Token>>, source: &Lexer) -> (r: Result<
    Vec<Token>,
    ParseError,
>)
    ensures
        tokens_outcome(r) == substitute(
            token_views(body@).reverse(),
            token_list_views(args@),
            source@,
        ),
{
    let ghost logical = token_views(body@).reverse();
    let ghost spec_args = token_list_views(args@);
    let ghost target = substitute(logical, spec_args, source@);
    let len = body.len();
    let mut out: Vec<Token> = Vec::new();
    let mut i: usize = len;
    proof {
        assert(logical.skip(0) =~= logical);
        assert(token_views(out@) =~= Seq::empty());
        match target {
            Ok(r) => {
                assert(Seq::<TokenView>::empty() + r =~= r);
            },
            Err(e) => {},
        }
    }
    while i > 0
        invariant
            i <= len,
            len == body.len(),
            logical == token_views(body@).reverse(),
            spec_args == token_list_views(args@),
            target == substitute(logical, spec_args, source@),
            prepend(token_views(out@), substitute(logical.skip(len - i), spec_args, source@))
                == target,
        decreases i,
    {
        let ghost rest = logical.skip(len - i);
        let ghost before = out@;
        assert(rest.len() == i);
        assert(rest[0] == body@[i - 1]@);
        if body[i - 1].is("#") {
            if i == 1 {
                return Err(
                    ParseError::new(
                        ParseErrorKind::IncompletePlaceholder,
                        "Incomplete placeholder at end of macro body",
                        Some(&body[i - 1]),
                        source,
                    ),
                );
            }
            assert(rest[1] == body@[i - 2]@);
            assert(rest.skip(2) =~= logical.skip(len - (i - 2)));
            if body[i - 2].is("#") {
                out.push(body[i - 2].clone());
                proof {
                    lemma_token_views_push(before, body@[i - 2]);
                    lemma_prepend_twice(
                        token_views(before),
                        seq![rest[1]],
                        substitute(rest.skip(2), spec_args, source@),
                    );
                    assert(token_views(before) + seq![rest[1]] =~= token_views(before).push(
                        rest[1],
                    ));
                }
            } else {
                match digit_of(body[i - 2].text.as_str()) {
                    Some(n) => {
                        if n > args.len() {
                            return Err(
                                ParseError::new(
                                    ParseErrorKind::InvalidPlaceholder,
                                    "Not a valid argument number",
                                    Some(&body[i - 2]),
                                    source,
                                ),
                            );
                        }
                        let arg = &args[n - 1];
                        let ghost arg_view = token_views(arg@);
                        assert(spec_args[n - 1] == arg_view);
                        let mut j: usize = arg.len();
                        assert(arg_view.reverse().subrange(0, 0) =~= Seq::<TokenView>::empty());
                        assert(token_views(before) + Seq::<TokenView>::empty() =~= token_views(
                            before,
                        ));
                        while j > 0
                            invariant
                                j <= arg.len(),
                                arg_view == token_views(arg@),
                                token_views(out@) == token_views(before) + arg_view.reverse().subrange(
                                    0,
                                    arg.len() - j,
                                ),
                            decreases j,
                        {
                            let ghost so_far = out@;
                            out.push(arg[j - 1].clone());
                            proof {
                                lemma_token_views_push(so_far, arg@[j - 1]);
                                assert(token_views(out@) =~= token_views(before)
                                    + arg_view.reverse().subrange(0, arg.len() - j + 1));
                            }
                            j -= 1;
                        }
                        proof {
                            assert(arg_view.reverse().subrange(0, arg.len() as int)
                                =~= arg_view.reverse());
                            lemma_prepend_twice(
                                token_views(before),
                                arg_view.reverse(),
                                substitute(rest.skip(2), spec_args, source@),
                            );
                        }
                    },
                    None => {
                        return Err(
                            ParseError::new(
                                ParseErrorKind::InvalidPlaceholder,
                                "Not a valid argument number",
                                Some(&body[i - 2]),
                                source,
                            ),
                        );
                    },
                }
            }
            i -= 2;
        } else {
            assert(rest.skip(1) =~= logical.skip(len - (i - 1)));
            out.push(body[i - 1].clone());
            proof {
                lemma_token_views_push(before, body@[i - 1]);
                lemma_prepend_twice(
                    token_views(before),
                    seq![rest[0]],
                    substitute(rest.skip(1), spec_args, source@),
                );
                assert(token_views(before) + seq![rest[0]] =~= token_views(before).push(rest[0]));
            }
            i -= 1;
        }
    }
    proof {
        assert(logical.skip(len as int).len() == 0);
        assert(token_views(out@) + Seq::<TokenView>::empty() =~= token_views(out@));
    }
    Ok(out)
}

} // verus!
