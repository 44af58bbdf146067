//! The nodes of the syntax tree.

use vstd::prelude::*;
use crate::parser::Mode;
use crate::source_location::SourceLocation;
use crate::symbols::SymbolGroup;
use crate::token::{Token, TokenView};

verus! {

/// How one column of an array is set: a separator between columns, or the
/// alignment of a column with the gaps before and after it, in thousandths
/// of an em.
#[derive(Debug, Clone, PartialEq)]
pub struct AlignSpec {
    pub separator: Option<String>,
    pub align: Option<String>,
    pub pregap: Option<u32>,
    pub postgap: Option<u32>,
}

/// How the columns of an array are spaced.
#[derive(Debug, Clone, Copy, PartialEq, Eq)]
pub enum ColSeparationType {
    Align,
    Alignat,
    Gather,
    Small,
    Cd,
}

/// A length: `number` thousandths of `unit`.
#[derive(Debug, Clone, PartialEq)]
pub struct Measurement {
    pub number: i64,
    pub unit: String,
}

/// What a length is, as a mathematical value.
pub struct MeasurementView {
    pub number: int,
    pub unit: Seq<char>,
}

impl View for Measurement {
    type V = MeasurementView;

    open spec fn view(&self) -> MeasurementView {
        MeasurementView { number: self.number as int, unit: self.unit@ }
    }
}

/// The view of a length that may be missing.
pub open spec fn measurement_view(m: Option<Measurement>) -> Option<MeasurementView> {
    match m {
        Some(m) => Some(m@),
        None => None,
    }
}

/// The characters of a string that may be missing.
pub open spec fn text_view(s: Option<String>) -> Option<Seq<char>> {
    match s {
        Some(s) => Some(s@),
        None => None,
    }
}

/// The view of a token that may be missing.
pub open spec fn token_view(t: Option<Token>) -> Option<TokenView> {
    match t {
        Some(t) => Some(t@),
        None => None,
    }
}

/// A node of the syntax tree.
#[derive(Debug, PartialEq)]
pub enum AnyParseNode {
    Array(ArrayParseNode),
    CdLabel(CdLabelParseNode),
    CdLabelParent(CdLabelParentParseNode),
    Color(ColorParseNode),
    ColorToken(ColorTokenParseNode),
    Op(OpParseNode),
    OrdGroup(OrdGroupParseNode),
    Raw(RawParseNode),
    Size(SizeParseNode),
    Styling(StylingParseNode),
    SupSub(SupSubParseNode),
    Tag(TagParseNode),
    Text(TextParseNode),
    Url(UrlParseNode),
    Verb(VerbParseNode),
    Atom(Atom),
    MathOrd(MathOrdParseNode),
    TextOrd(TextOrdParseNode),
    Spacing(SpacingParseNode),
    Accent(AccentParseNode),
    AccentUnder(AccentUnderParseNode),
    Cr(CrParseNode),
    DelimSizing(DelimSizingParseNode),
    Enclose(EncloseParseNode),
    Environment(EnvironmentParseNode),
    Font(FontParseNode),
    Genfrac(GenfracParseNode),
    Hbox(HboxParseNode),
    HorizBrace(HorizBraceParseNode),
    Href(HrefParseNode),
    Html(HtmlParseNode),
    HtmlMathml(HtmlMathmlParseNode),
    Includegraphics(IncludegraphicsParseNode),
    Infix(InfixParseNode),
    Internal(InternalParseNode),
    Kern(KernParseNode),
    Lap(LapParseNode),
    LeftRight(LeftRightParseNode),
    LeftRightRight(LeftRightRightParseNode),
    MathChoice(MathChoiceParseNode),
    Middle(MiddleParseNode),
    Mclass(MclassParseNode),
    Operatorname(OperatornameParseNode),
    Overline(OverlineParseNode),
    Phantom(PhantomParseNode),
    Hphantom(HphantomParseNode),
    Vphantom(VphantomParseNode),
    Pmb(PmbParseNode),
    Raisebox(RaiseboxParseNode),
    Rule(RuleParseNode),
    Sizing(SizingParseNode),
    Smash(SmashParseNode),
    Sqrt(SqrtParseNode),
    Underline(UnderlineParseNode),
    Vcenter(VcenterParseNode),
    XArrow(XArrowParseNode),
}

/// An array or matrix.
#[derive(Debug, PartialEq)]
pub struct ArrayParseNode {
    pub mode: Mode,
    pub loc: Option<SourceLocation>,
    pub col_separation_type: Option<ColSeparationType>,
    pub hskip_before_and_after: Option<bool>,
    pub add_jot: Option<bool>,
    pub cols: Option<Vec<AlignSpec>>,
    pub arraystretch: Measurement,
    pub body: Vec<Vec<AnyParseNode>>,
    pub row_gaps: Vec<Option<Measurement>>,
    pub h_lines_before_row: Vec<Vec<bool>>,
    pub tags: Option<Vec<bool>>,
    pub leqno: Option<bool>,
    pub is_cd: Option<bool>,
}

/// A label of a commutative diagram.
#[derive(Debug, PartialEq)]
pub struct CdLabelParseNode {
    pub mode: Mode,
    pub loc: Option<SourceLocation>,
    pub side: String,
    pub label: Box<AnyParseNode>,
}

/// What a label of a commutative diagram is attached to.
#[derive(Debug, PartialEq)]
pub struct CdLabelParentParseNode {
    pub mode: Mode,
    pub loc: Option<SourceLocation>,
    pub fragment: Box<AnyParseNode>,
}

/// Colored content.
#[derive(Debug, PartialEq)]
pub struct ColorParseNode {
    pub mode: Mode,
    pub loc: Option<SourceLocation>,
    pub color: String,
    pub body: Vec<AnyParseNode>,
}

/// A color given as an argument.
#[derive(Debug, PartialEq)]
pub struct ColorTokenParseNode {
    pub mode: Mode,
    pub loc: Option<SourceLocation>,
    pub color: String,
}

/// An operator such as a sum or a limit.
#[derive(Debug, PartialEq)]
pub struct OpParseNode {
    pub mode: Mode,
    pub loc: Option<SourceLocation>,
    pub limits: bool,
    pub always_handle_sup_sub: Option<bool>,
    pub suppress_base_shift: Option<bool>,
    pub parent_is_sup_sub: bool,
    pub symbol: bool,
    pub name: Option<String>,
    pub body: Option<Vec<AnyParseNode>>,
}

/// A group of nodes that acts as one.
#[derive(Debug, PartialEq)]
pub struct OrdGroupParseNode {
    pub mode: Mode,
    pub loc: Option<SourceLocation>,
    pub body: Vec<AnyParseNode>,
    pub semisimple: Option<bool>,
}

/// An argument taken as it stands.
#[derive(Debug, PartialEq)]
pub struct RawParseNode {
    pub mode: Mode,
    pub loc: Option<SourceLocation>,
    pub string: String,
}

/// A length given as an argument.
#[derive(Debug, PartialEq)]
pub struct SizeParseNode {
    pub mode: Mode,
    pub loc: Option<SourceLocation>,
    pub value: Measurement,
    pub is_blank: bool,
}

/// Content in a given math style.
#[derive(Debug, PartialEq)]
pub struct StylingParseNode {
    pub mode: Mode,
    pub loc: Option<SourceLocation>,
    pub style: String,
    pub body: Vec<AnyParseNode>,
}

/// A base with a superscript, a subscript or both.
#[derive(Debug, PartialEq)]
pub struct SupSubParseNode {
    pub mode: Mode,
    pub loc: Option<SourceLocation>,
    pub base: Option<Box<AnyParseNode>>,
    pub sup: Option<Box<AnyParseNode>>,
    pub sub: Option<Box<AnyParseNode>>,
}

/// A display equation with its tag.
#[derive(Debug, PartialEq)]
pub struct TagParseNode {
    pub mode: Mode,
    pub loc: Option<SourceLocation>,
    pub body: Vec<AnyParseNode>,
    pub tag: Vec<AnyParseNode>,
}

/// Content in text mode.
#[derive(Debug, PartialEq)]
pub struct TextParseNode {
    pub mode: Mode,
    pub loc: Option<SourceLocation>,
    pub body: Vec<AnyParseNode>,
    pub font: Option<String>,
}

/// A URL given as an argument.
#[derive(Debug, PartialEq)]
pub struct UrlParseNode {
    pub mode: Mode,
    pub loc: Option<SourceLocation>,
    pub url: String,
}

/// Verbatim text.
#[derive(Debug, PartialEq)]
pub struct VerbParseNode {
    pub mode: Mode,
    pub loc: Option<SourceLocation>,
    pub body: String,
    pub star: bool,
}

/// A symbol that takes its spacing from its family.
#[derive(Debug, PartialEq)]
pub struct Atom {
    pub mode: Mode,
    pub loc: Option<SourceLocation>,
    pub family: SymbolGroup,
    pub text: String,
}

/// An ordinary symbol of math mode.
#[derive(Debug, PartialEq)]
pub struct MathOrdParseNode {
    pub mode: Mode,
    pub loc: Option<SourceLocation>,
    pub text: String,
}

/// An ordinary symbol that is set upright.
#[derive(Debug, PartialEq)]
pub struct TextOrdParseNode {
    pub mode: Mode,
    pub loc: Option<SourceLocation>,
    pub text: String,
}

/// A space.
#[derive(Debug, PartialEq)]
pub struct SpacingParseNode {
    pub mode: Mode,
    pub loc: Option<SourceLocation>,
    pub text: String,
}

/// An accent above its base.
#[derive(Debug, PartialEq)]
pub struct AccentParseNode {
    pub mode: Mode,
    pub loc: Option<SourceLocation>,
    pub label: String,
    pub is_stretchy: Option<bool>,
    pub is_shifty: Option<bool>,
    pub base: Box<AnyParseNode>,
}

/// An accent below its base.
#[derive(Debug, PartialEq)]
pub struct AccentUnderParseNode {
    pub mode: Mode,
    pub loc: Option<SourceLocation>,
    pub label: String,
    pub is_stretchy: Option<bool>,
    pub is_shifty: Option<bool>,
    pub base: Box<AnyParseNode>,
}

/// A line break.
#[derive(Debug, PartialEq)]
pub struct CrParseNode {
    pub mode: Mode,
    pub loc: Option<SourceLocation>,
    pub new_line: bool,
    pub size: Option<Measurement>,
}

/// A delimiter of a given size.
#[derive(Debug, PartialEq)]
pub struct DelimSizingParseNode {
    pub mode: Mode,
    pub loc: Option<SourceLocation>,
    pub size: i64,
    pub mclass: String,
    pub delim: String,
}

/// Content in a box or struck out.
#[derive(Debug, PartialEq)]
pub struct EncloseParseNode {
    pub mode: Mode,
    pub loc: Option<SourceLocation>,
    pub label: String,
    pub background_color: Option<String>,
    pub border_color: Option<String>,
    pub body: Box<AnyParseNode>,
}

/// The start or end of an environment.
#[derive(Debug, PartialEq)]
pub struct EnvironmentParseNode {
    pub mode: Mode,
    pub loc: Option<SourceLocation>,
    pub name: String,
    pub name_group: Box<AnyParseNode>,
}

/// Content in a given font.
#[derive(Debug, PartialEq)]
pub struct FontParseNode {
    pub mode: Mode,
    pub loc: Option<SourceLocation>,
    pub font: String,
    pub body: Box<AnyParseNode>,
}

/// A fraction or a binomial.
#[derive(Debug, PartialEq)]
pub struct GenfracParseNode {
    pub mode: Mode,
    pub loc: Option<SourceLocation>,
    pub continued: bool,
    pub numer: Box<AnyParseNode>,
    pub denom: Box<AnyParseNode>,
    pub has_bar_line: bool,
    pub left_delim: Option<String>,
    pub right_delim: Option<String>,
    pub size: String,
    pub bar_size: Option<Measurement>,
}

/// Content set as a horizontal box.
#[derive(Debug, PartialEq)]
pub struct HboxParseNode {
    pub mode: Mode,
    pub loc: Option<SourceLocation>,
    pub body: Vec<AnyParseNode>,
}

/// A brace above or below its base.
#[derive(Debug, PartialEq)]
pub struct HorizBraceParseNode {
    pub mode: Mode,
    pub loc: Option<SourceLocation>,
    pub label: String,
    pub is_over: bool,
    pub base: Box<AnyParseNode>,
}

/// A hyperlink.
#[derive(Debug, PartialEq)]
pub struct HrefParseNode {
    pub mode: Mode,
    pub loc: Option<SourceLocation>,
    pub href: String,
    pub body: Vec<AnyParseNode>,
}

/// Content with HTML attributes.
#[derive(Debug, PartialEq)]
pub struct HtmlParseNode {
    pub mode: Mode,
    pub loc: Option<SourceLocation>,
    pub attributes: Vec<(String, String)>,
    pub body: Vec<AnyParseNode>,
}

/// Content that differs between the two outputs.
#[derive(Debug, PartialEq)]
pub struct HtmlMathmlParseNode {
    pub mode: Mode,
    pub loc: Option<SourceLocation>,
    pub html: Vec<AnyParseNode>,
    pub mathml: Vec<AnyParseNode>,
}

/// An image.
#[derive(Debug, PartialEq)]
pub struct IncludegraphicsParseNode {
    pub mode: Mode,
    pub loc: Option<SourceLocation>,
    pub alt: String,
    pub width: Measurement,
    pub height: Measurement,
    pub totalheight: Measurement,
    pub src: String,
}

/// An infix operator that waits to be rewritten.
#[derive(Debug, PartialEq)]
pub struct InfixParseNode {
    pub mode: Mode,
    pub loc: Option<SourceLocation>,
    pub replace_with: String,
    pub size: Option<Measurement>,
    pub token: Option<Token>,
}

/// A marker that leaves nothing in the tree.
#[derive(Debug, PartialEq)]
pub struct InternalParseNode {
    pub mode: Mode,
    pub loc: Option<SourceLocation>,
}

/// A space of a given width.
#[derive(Debug, PartialEq)]
pub struct KernParseNode {
    pub mode: Mode,
    pub loc: Option<SourceLocation>,
    pub dimension: Measurement,
}

/// Content that overlaps its neighbors.
#[derive(Debug, PartialEq)]
pub struct LapParseNode {
    pub mode: Mode,
    pub loc: Option<SourceLocation>,
    pub alignment: String,
    pub body: Box<AnyParseNode>,
}

/// Content between delimiters that grow with it.
#[derive(Debug, PartialEq)]
pub struct LeftRightParseNode {
    pub mode: Mode,
    pub loc: Option<SourceLocation>,
    pub body: Vec<AnyParseNode>,
    pub left: String,
    pub right: String,
    pub right_color: Option<String>,
}

/// The closing delimiter of such content.
#[derive(Debug, PartialEq)]
pub struct LeftRightRightParseNode {
    pub mode: Mode,
    pub loc: Option<SourceLocation>,
    pub delim: String,
    pub color: Option<String>,
}

/// Content chosen by math style.
#[derive(Debug, PartialEq)]
pub struct MathChoiceParseNode {
    pub mode: Mode,
    pub loc: Option<SourceLocation>,
    pub display: Vec<AnyParseNode>,
    pub text: Vec<AnyParseNode>,
    pub script: Vec<AnyParseNode>,
    pub scriptscript: Vec<AnyParseNode>,
}

/// A delimiter in the middle of such content.
#[derive(Debug, PartialEq)]
pub struct MiddleParseNode {
    pub mode: Mode,
    pub loc: Option<SourceLocation>,
    pub delim: String,
}

/// Content with a given math class.
#[derive(Debug, PartialEq)]
pub struct MclassParseNode {
    pub mode: Mode,
    pub loc: Option<SourceLocation>,
    pub mclass: String,
    pub body: Vec<AnyParseNode>,
    pub is_character_box: bool,
}

/// The name of an operator.
#[derive(Debug, PartialEq)]
pub struct OperatornameParseNode {
    pub mode: Mode,
    pub loc: Option<SourceLocation>,
    pub body: Vec<AnyParseNode>,
    pub always_handle_sup_sub: bool,
    pub limits: bool,
    pub parent_is_sup_sub: bool,
}

/// Content with a line above.
#[derive(Debug, PartialEq)]
pub struct OverlineParseNode {
    pub mode: Mode,
    pub loc: Option<SourceLocation>,
    pub body: Box<AnyParseNode>,
}

/// Content that takes room and shows nothing.
#[derive(Debug, PartialEq)]
pub struct PhantomParseNode {
    pub mode: Mode,
    pub loc: Option<SourceLocation>,
    pub body: Vec<AnyParseNode>,
}

/// Content of which only the width counts.
#[derive(Debug, PartialEq)]
pub struct HphantomParseNode {
    pub mode: Mode,
    pub loc: Option<SourceLocation>,
    pub body: Box<AnyParseNode>,
}

/// Content of which only the height counts.
#[derive(Debug, PartialEq)]
pub struct VphantomParseNode {
    pub mode: Mode,
    pub loc: Option<SourceLocation>,
    pub body: Box<AnyParseNode>,
}

/// Content in poor man's bold.
#[derive(Debug, PartialEq)]
pub struct PmbParseNode {
    pub mode: Mode,
    pub loc: Option<SourceLocation>,
    pub mclass: String,
    pub body: Vec<AnyParseNode>,
}

/// Content that is raised.
#[derive(Debug, PartialEq)]
pub struct RaiseboxParseNode {
    pub mode: Mode,
    pub loc: Option<SourceLocation>,
    pub dy: Measurement,
    pub body: Box<AnyParseNode>,
}

/// A filled box.
#[derive(Debug, PartialEq)]
pub struct RuleParseNode {
    pub mode: Mode,
    pub loc: Option<SourceLocation>,
    pub shift: Option<Measurement>,
    pub width: Measurement,
    pub height: Measurement,
}

/// Content in a given size.
#[derive(Debug, PartialEq)]
pub struct SizingParseNode {
    pub mode: Mode,
    pub loc: Option<SourceLocation>,
    pub size: usize,
    pub body: Vec<AnyParseNode>,
}

/// Content whose height or depth is ignored.
#[derive(Debug, PartialEq)]
pub struct SmashParseNode {
    pub mode: Mode,
    pub loc: Option<SourceLocation>,
    pub body: Box<AnyParseNode>,
    pub smash_height: bool,
    pub smash_depth: bool,
}

/// A root.
#[derive(Debug, PartialEq)]
pub struct SqrtParseNode {
    pub mode: Mode,
    pub loc: Option<SourceLocation>,
    pub body: Box<AnyParseNode>,
    pub index: Option<Box<AnyParseNode>>,
}

/// Content with a line below.
#[derive(Debug, PartialEq)]
pub struct UnderlineParseNode {
    pub mode: Mode,
    pub loc: Option<SourceLocation>,
    pub body: Box<AnyParseNode>,
}

/// Content centered on the axis.
#[derive(Debug, PartialEq)]
pub struct VcenterParseNode {
    pub mode: Mode,
    pub loc: Option<SourceLocation>,
    pub body: Box<AnyParseNode>,
}

/// An arrow that grows with its labels.
#[derive(Debug, PartialEq)]
pub struct XArrowParseNode {
    pub mode: Mode,
    pub loc: Option<SourceLocation>,
    pub label: String,
    pub body: Box<AnyParseNode>,
    pub below: Option<Box<AnyParseNode>>,
}

/// What a node is, as a mathematical value. The kinds that the parser builds
/// are spelled out; a node of another kind stands for itself.
pub enum NodeView {
    Atom { family: SymbolGroup, mode: Mode, loc: Option<SourceLocation>, text: Seq<char> },
    MathOrd { mode: Mode, loc: Option<SourceLocation>, text: Seq<char> },
    TextOrd { mode: Mode, loc: Option<SourceLocation>, text: Seq<char> },
    Spacing { mode: Mode, loc: Option<SourceLocation>, text: Seq<char> },
    OrdGroup {
        mode: Mode,
        loc: Option<SourceLocation>,
        body: Seq<NodeView>,
        semisimple: Option<bool>,
    },
    Infix {
        mode: Mode,
        loc: Option<SourceLocation>,
        replace_with: Seq<char>,
        size: Option<MeasurementView>,
        token: Option<TokenView>,
    },
    Genfrac {
        mode: Mode,
        loc: Option<SourceLocation>,
        continued: bool,
        numer: Box<NodeView>,
        denom: Box<NodeView>,
        has_bar_line: bool,
        left_delim: Option<Seq<char>>,
        right_delim: Option<Seq<char>>,
        size: Seq<char>,
        bar_size: Option<MeasurementView>,
    },
    Internal { mode: Mode, loc: Option<SourceLocation> },
    Tag { mode: Mode, loc: Option<SourceLocation>, body: Seq<NodeView>, tag: Seq<NodeView> },
    LeftRight {
        mode: Mode,
        loc: Option<SourceLocation>,
        body: Seq<NodeView>,
        left: Seq<char>,
        right: Seq<char>,
        right_color: Option<Seq<char>>,
    },
    LeftRightRight {
        mode: Mode,
        loc: Option<SourceLocation>,
        delim: Seq<char>,
        color: Option<Seq<char>>,
    },
    Middle { mode: Mode, loc: Option<SourceLocation>, delim: Seq<char> },
    Text { mode: Mode, loc: Option<SourceLocation>, body: Seq<NodeView>, font: Option<Seq<char>> },
    SupSub {
        mode: Mode,
        loc: Option<SourceLocation>,
        base: Option<Box<NodeView>>,
        sup: Option<Box<NodeView>>,
        sub: Option<Box<NodeView>>,
    },
    Other(AnyParseNode),
}

/// The view of a node.
#[verifier::opaque]
pub open spec fn node_view(node: AnyParseNode) -> NodeView
    decreases node,
{
    match node {
        AnyParseNode::Atom(n) => NodeView::Atom {
            family: n.family,
            mode: n.mode,
            loc: n.loc,
            text: n.text@,
        },
        AnyParseNode::MathOrd(n) => NodeView::MathOrd { mode: n.mode, loc: n.loc, text: n.text@ },
        AnyParseNode::TextOrd(n) => NodeView::TextOrd { mode: n.mode, loc: n.loc, text: n.text@ },
        AnyParseNode::Spacing(n) => NodeView::Spacing { mode: n.mode, loc: n.loc, text: n.text@ },
        AnyParseNode::OrdGroup(n) => NodeView::OrdGroup {
            mode: n.mode,
            loc: n.loc,
            body: Seq::new(
                n.body@.len(),
                |i: int|
                    if 0 <= i < n.body@.len() {
                        node_view(n.body@[i])
                    } else {
                        NodeView::Other(node)
                    },
            ),
            semisimple: n.semisimple,
        },
        AnyParseNode::Infix(n) => NodeView::Infix {
            mode: n.mode,
            loc: n.loc,
            replace_with: n.replace_with@,
            size: measurement_view(n.size),
            token: token_view(n.token),
        },
        AnyParseNode::Genfrac(n) => NodeView::Genfrac {
            mode: n.mode,
            loc: n.loc,
            continued: n.continued,
            numer: Box::new(node_view(*n.numer)),
            denom: Box::new(node_view(*n.denom)),
            has_bar_line: n.has_bar_line,
            left_delim: text_view(n.left_delim),
            right_delim: text_view(n.right_delim),
            size: n.size@,
            bar_size: measurement_view(n.bar_size),
        },
        AnyParseNode::Internal(n) => NodeView::Internal { mode: n.mode, loc: n.loc },
        AnyParseNode::Tag(n) => NodeView::Tag {
            mode: n.mode,
            loc: n.loc,
            body: Seq::new(
                n.body@.len(),
                |i: int|
                    if 0 <= i < n.body@.len() {
                        node_view(n.body@[i])
                    } else {
                        NodeView::Other(node)
                    },
            ),
            tag: Seq::new(
                n.tag@.len(),
                |i: int|
                    if 0 <= i < n.tag@.len() {
                        node_view(n.tag@[i])
                    } else {
                        NodeView::Other(node)
                    },
            ),
        },
        AnyParseNode::LeftRight(n) => NodeView::LeftRight {
            mode: n.mode,
            loc: n.loc,
            body: Seq::new(
                n.body@.len(),
                |i: int|
                    if 0 <= i < n.body@.len() {
                        node_view(n.body@[i])
                    } else {
                        NodeView::Other(node)
                    },
            ),
            left: n.left@,
            right: n.right@,
            right_color: text_view(n.right_color),
        },
        AnyParseNode::LeftRightRight(n) => NodeView::LeftRightRight {
            mode: n.mode,
            loc: n.loc,
            delim: n.delim@,
            color: text_view(n.color),
        },
        AnyParseNode::Middle(n) => NodeView::Middle { mode: n.mode, loc: n.loc, delim: n.delim@ },
        AnyParseNode::Text(n) => NodeView::Text {
            mode: n.mode,
            loc: n.loc,
            body: Seq::new(
                n.body@.len(),
                |i: int|
                    if 0 <= i < n.body@.len() {
                        node_view(n.body@[i])
                    } else {
                        NodeView::Other(node)
                    },
            ),
            font: text_view(n.font),
        },
        AnyParseNode::SupSub(n) => NodeView::SupSub {
            mode: n.mode,
            loc: n.loc,
            base: match n.base {
                Some(b) => Some(Box::new(node_view(*b))),
                None => None,
            },
            sup: match n.sup {
                Some(b) => Some(Box::new(node_view(*b))),
                None => None,
            },
            sub: match n.sub {
                Some(b) => Some(Box::new(node_view(*b))),
                None => None,
            },
        },
        _ => NodeView::Other(node),
    }
}

impl View for AnyParseNode {
    type V = NodeView;

    open spec fn view(&self) -> NodeView {
        node_view(*self)
    }
}

/// The views of a sequence of nodes, in the same order.
pub open spec fn node_views(nodes: Seq<AnyParseNode>) -> Seq<NodeView> {
    Seq::new(nodes.len(), |i: int| nodes[i]@)
}

pub proof fn lemma_node_views_push(nodes: Seq<AnyParseNode>, node: AnyParseNode)
    ensures
        node_views(nodes.push(node)) == node_views(nodes).push(node@),
{
    assert(node_views(nodes.push(node)) =~= node_views(nodes).push(node@));
}

pub proof fn lemma_node_views_subrange(nodes: Seq<AnyParseNode>, i: int, j: int)
    requires
        0 <= i <= j <= nodes.len(),
    ensures
        node_views(nodes.subrange(i, j)) == node_views(nodes).subrange(i, j),
{
    assert(node_views(nodes.subrange(i, j)) =~= node_views(nodes).subrange(i, j));
}

/// A group's view holds the views of its body.
pub proof fn lemma_group_view(group: OrdGroupParseNode)
    ensures
        AnyParseNode::OrdGroup(group)@ == (NodeView::OrdGroup {
            mode: group.mode,
            loc: group.loc,
            body: node_views(group.body@),
            semisimple: group.semisimple,
        }),
{
    reveal(node_view);
    assert(AnyParseNode::OrdGroup(group)@->OrdGroup_body =~= node_views(group.body@));
}

/// The view of delimited content holds the views of its body.
pub proof fn lemma_left_right_view(content: LeftRightParseNode)
    ensures
        AnyParseNode::LeftRight(content)@ == (NodeView::LeftRight {
            mode: content.mode,
            loc: content.loc,
            body: node_views(content.body@),
            left: content.left@,
            right: content.right@,
            right_color: text_view(content.right_color),
        }),
{
    reveal(node_view);
    assert(AnyParseNode::LeftRight(content)@->LeftRight_body =~= node_views(content.body@));
}

/// The view of content in text mode holds the views of its body.
pub proof fn lemma_text_view(content: TextParseNode)
    ensures
        AnyParseNode::Text(content)@ == (NodeView::Text {
            mode: content.mode,
            loc: content.loc,
            body: node_views(content.body@),
            font: text_view(content.font),
        }),
{
    reveal(node_view);
    assert(AnyParseNode::Text(content)@->Text_body =~= node_views(content.body@));
}

/// The body of a group is what its view holds.
pub proof fn lemma_group_body(group: OrdGroupParseNode)
    ensures
        AnyParseNode::OrdGroup(group)@ is OrdGroup,
        AnyParseNode::OrdGroup(group)@->OrdGroup_body == node_views(group.body@),
{
    lemma_group_view(group);
}

/// A tagged equation's view holds the views of its body and of its tag.
pub proof fn lemma_tag_view(tagged: TagParseNode)
    ensures
        AnyParseNode::Tag(tagged)@ == (NodeView::Tag {
            mode: tagged.mode,
            loc: tagged.loc,
            body: node_views(tagged.body@),
            tag: node_views(tagged.tag@),
        }),
{
    reveal(node_view);
    assert(AnyParseNode::Tag(tagged)@->Tag_body =~= node_views(tagged.body@));
    assert(AnyParseNode::Tag(tagged)@->Tag_tag =~= node_views(tagged.tag@));
}

} // verus!
