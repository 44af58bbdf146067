//! Parsing a whole expression.

use vstd::prelude::*;
use crate::grammar::ParserView;
use crate::gullet::GulletView;
use crate::infix::nodes_outcome;
use crate::parse_error::{ParseError, ParseErrorKind, ParseErrorView};
use crate::parse_node::{AnyParseNode, NodeView, TagParseNode, lemma_tag_view, node_views};
use crate::parser::{Mode, Parser, start};
use crate::settings::Settings;
use crate::token::{Token, TokenView, token_views};

verus! {

/// The state `s` with the macro `name` taken out of every layer.
pub open spec fn without_macro(s: ParserView, name: Seq<char>) -> ParserView {
    s.with_gullet(GulletView { macros: s.gullet.macros.remove(name), ..s.gullet })
}

/// The tree of the expression `input`: what the parser makes of it and, if
/// the input set a tag, the tag beside it. A tag outside display mode is an
/// error.
pub open spec fn tree_of(input: Seq<char>, settings: &Settings) -> Result<
    Seq<NodeView>,
    ParseErrorView,
> {
    let parsed = without_macro(start(input, settings), "\\df@tag"@).parse();
    match parsed.result {
        Ok(tree) => {
            let state = without_macro(
                without_macro(parsed.state, "\\current@color"@),
                "\\color"@,
            );
            if state.gullet.macros.has("\\df@tag"@) {
                if !settings.display_mode {
                    Err(
                        state.gullet.error(
                            ParseErrorKind::DisplayModeRequired,
                            "\\tag works only in display equations"@,
                            None,
                        ),
                    )
                } else {
                    match state.subparse(seq![TokenView::plain("\\df@tag"@, None)]).result {
                        Ok(tag) => Ok(
                            seq![
                                NodeView::Tag { mode: Mode::Text, loc: None, body: tree, tag },
                            ],
                        ),
                        Err(e) => Err(e),
                    }
                }
            } else {
                Ok(tree)
            }
        },
        Err(e) => Err(e),
    }
}

/// Parses an expression using a Parser, then returns the parsed result.
pub fn parse_tree(to_parse: &str, settings: &Settings) -> (r: Result<
    Vec<AnyParseNode>,
    ParseError,
>)
    ensures
        nodes_outcome(r) == tree_of(to_parse@, settings),
{
    let mut parser = Parser::new(to_parse, settings);
    // Blank out any \df@tag to avoid spurious "Duplicate \tag" errors
    parser.undefine("\\df@tag");
    let tree = match parser.parse() {
        Ok(tree) => tree,
        Err(e) => {
            return Err(e);
        },
    };
    // Prevent a color definition from persisting between calls.
    parser.undefine("\\current@color");
    parser.undefine("\\color");
    // If the input used \tag, it will set the \df@tag macro to the tag.
    // In this case, we separately parse the tag and wrap the tree.
    if parser.gullet().macros().has("\\df@tag") {
        if !settings.display_mode {
            return Err(
                ParseError::new(
                    ParseErrorKind::DisplayModeRequired,
                    "\\tag works only in display equations",
                    None,
                    parser.gullet().lexer(),
                ),
            );
        }
        let mut tokens: Vec<Token> = Vec::new();
        tokens.push(Token::new(String::from_str("\\df@tag"), None));
        assert(token_views(tokens@) =~= seq![TokenView::plain("\\df@tag"@, None)]);
        let tag = match parser.subparse(tokens) {
            Ok(tag) => tag,
            Err(e) => {
                return Err(e);
            },
        };
        let tagged = TagParseNode { mode: Mode::Text, loc: None, body: tree, tag };
        proof {
            lemma_tag_view(tagged);
        }
        let mut out: Vec<AnyParseNode> = Vec::new();
        out.push(AnyParseNode::Tag(tagged));
        assert(node_views(out@) =~= seq![AnyParseNode::Tag(tagged)@]);
        Ok(out)
    } else {
        Ok(tree)
    }
}

} // verus!
