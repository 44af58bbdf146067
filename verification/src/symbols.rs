//! The symbol tables: which names stand for a character of their own, in
//! math mode and in text mode, and how each is spaced.

use vstd::prelude::*;
use vstd::string::StrSliceExecFns;
use crate::parser::Mode;

verus! {

/// How a symbol behaves in a formula.
#[derive(Clone, Copy, Debug, PartialEq, Eq, Structural)]
pub enum SymbolGroup {
    MathOrd,
    TextOrd,
    Bin,
    Rel,
    Open,
    Close,
    Punct,
    Inner,
    Spacing,
}

impl SymbolGroup {
    /// Whether symbols of this group are atoms, which take their spacing from
    /// the group.
    pub open spec fn spec_is_atom(self) -> bool {
        self == SymbolGroup::Bin || self == SymbolGroup::Rel || self == SymbolGroup::Open || self
            == SymbolGroup::Close || self == SymbolGroup::Punct || self == SymbolGroup::Inner
    }

    #[verifier::when_used_as_spec(spec_is_atom)]
    pub fn is_atom(self) -> (b: bool)
        ensures
            b == self.spec_is_atom(),
    {
        match self {
            SymbolGroup::Bin | SymbolGroup::Rel | SymbolGroup::Open | SymbolGroup::Close
            | SymbolGroup::Punct | SymbolGroup::Inner => true,
            _ => false,
        }
    }
}

pub open spec fn is_ascii_letter(c: char) -> bool {
    ('a' <= c && c <= 'z') || ('A' <= c && c <= 'Z')
}

pub open spec fn is_ascii_digit(c: char) -> bool {
    '0' <= c && c <= '9'
}

/// The group of a single character in math mode.
pub open spec fn math_char(c: char) -> Option<SymbolGroup> {
    if is_ascii_letter(c) {
        Some(SymbolGroup::MathOrd)
    } else if is_ascii_digit(c) {
        Some(SymbolGroup::TextOrd)
    } else if c == '+' || c == '-' || c == '*' {
        Some(SymbolGroup::Bin)
    } else if c == '=' || c == '<' || c == '>' || c == ':' {
        Some(SymbolGroup::Rel)
    } else if c == '(' || c == '[' {
        Some(SymbolGroup::Open)
    } else if c == ')' || c == ']' || c == '?' || c == '!' {
        Some(SymbolGroup::Close)
    } else if c == ',' || c == ';' {
        Some(SymbolGroup::Punct)
    } else if c == '.' || c == '/' || c == '|' || c == '@' || c == '"' || c == '`' {
        Some(SymbolGroup::TextOrd)
    } else {
        None
    }
}

/// The group of a single character in text mode.
pub open spec fn text_char(c: char) -> Option<SymbolGroup> {
    if is_ascii_letter(c) || is_ascii_digit(c) {
        Some(SymbolGroup::TextOrd)
    } else if c == ' ' {
        Some(SymbolGroup::Spacing)
    } else if c == '+' || c == '-' || c == '*' || c == '=' || c == '<' || c == '>' || c == ':'
        || c == '(' || c == '[' || c == ')' || c == ']' || c == '?' || c == '!' || c == ','
        || c == ';' || c == '.' || c == '/' || c == '|' || c == '@' || c == '"' || c == '`'
        || c == '\'' {
        Some(SymbolGroup::TextOrd)
    } else {
        None
    }
}

/// The group of a named symbol in math mode.
pub open spec fn math_name(name: Seq<char>) -> Option<SymbolGroup> {
    if name == "\\alpha"@ {
        Some(SymbolGroup::MathOrd)
    } else if name == "\\beta"@ {
        Some(SymbolGroup::MathOrd)
    } else if name == "\\gamma"@ {
        Some(SymbolGroup::MathOrd)
    } else if name == "\\delta"@ {
        Some(SymbolGroup::MathOrd)
    } else if name == "\\epsilon"@ {
        Some(SymbolGroup::MathOrd)
    } else if name == "\\theta"@ {
        Some(SymbolGroup::MathOrd)
    } else if name == "\\lambda"@ {
        Some(SymbolGroup::MathOrd)
    } else if name == "\\mu"@ {
        Some(SymbolGroup::MathOrd)
    } else if name == "\\pi"@ {
        Some(SymbolGroup::MathOrd)
    } else if name == "\\sigma"@ {
        Some(SymbolGroup::MathOrd)
    } else if name == "\\phi"@ {
        Some(SymbolGroup::MathOrd)
    } else if name == "\\omega"@ {
        Some(SymbolGroup::MathOrd)
    } else if name == "\\infty"@ {
        Some(SymbolGroup::TextOrd)
    } else if name == "\\times"@ {
        Some(SymbolGroup::Bin)
    } else if name == "\\cdot"@ {
        Some(SymbolGroup::Bin)
    } else if name == "\\pm"@ {
        Some(SymbolGroup::Bin)
    } else if name == "\\div"@ {
        Some(SymbolGroup::Bin)
    } else if name == "\\leq"@ {
        Some(SymbolGroup::Rel)
    } else if name == "\\geq"@ {
        Some(SymbolGroup::Rel)
    } else if name == "\\neq"@ {
        Some(SymbolGroup::Rel)
    } else if name == "\\to"@ {
        Some(SymbolGroup::Rel)
    } else if name == "\\in"@ {
        Some(SymbolGroup::Rel)
    } else if name == "\\{"@ {
        Some(SymbolGroup::Open)
    } else if name == "\\}"@ {
        Some(SymbolGroup::Close)
    } else if name == "\\langle"@ {
        Some(SymbolGroup::Open)
    } else if name == "\\rangle"@ {
        Some(SymbolGroup::Close)
    } else if name == "\\ldots"@ {
        Some(SymbolGroup::Inner)
    } else if name == "\\cdots"@ {
        Some(SymbolGroup::Inner)
    } else if name == "\\ "@ {
        Some(SymbolGroup::Spacing)
    } else if name == "\\,"@ {
        Some(SymbolGroup::Spacing)
    } else if name == "\\;"@ {
        Some(SymbolGroup::Spacing)
    } else if name == "\\!"@ {
        Some(SymbolGroup::Spacing)
    } else if name == "\\quad"@ {
        Some(SymbolGroup::Spacing)
    } else if name == "\\nobreakspace"@ {
        Some(SymbolGroup::Spacing)
    } else {
        None
    }
}

/// The group of a named symbol in text mode.
pub open spec fn text_name(name: Seq<char>) -> Option<SymbolGroup> {
    if name == "\\{"@ {
        Some(SymbolGroup::TextOrd)
    } else if name == "\\}"@ {
        Some(SymbolGroup::TextOrd)
    } else if name == "\\$"@ {
        Some(SymbolGroup::TextOrd)
    } else if name == "\\%"@ {
        Some(SymbolGroup::TextOrd)
    } else if name == "\\&"@ {
        Some(SymbolGroup::TextOrd)
    } else if name == "\\#"@ {
        Some(SymbolGroup::TextOrd)
    } else if name == "\\_"@ {
        Some(SymbolGroup::TextOrd)
    } else if name == "\\ "@ {
        Some(SymbolGroup::Spacing)
    } else if name == "\\nobreakspace"@ {
        Some(SymbolGroup::Spacing)
    } else {
        None
    }
}

/// The entry of `name` in the math symbol table.
pub open spec fn math_symbol(name: Seq<char>) -> Option<SymbolGroup> {
    if name.len() == 1 {
        math_char(name[0])
    } else {
        math_name(name)
    }
}

/// The entry of `name` in the text symbol table.
pub open spec fn text_symbol(name: Seq<char>) -> Option<SymbolGroup> {
    if name.len() == 1 {
        text_char(name[0])
    } else {
        text_name(name)
    }
}

/// The entry of `name` in the symbol table of `mode`.
pub open spec fn symbol(mode: Mode, name: Seq<char>) -> Option<SymbolGroup> {
    match mode {
        Mode::Math => math_symbol(name),
        Mode::Text => text_symbol(name),
    }
}

fn math_char_group(c: char) -> (g: Option<SymbolGroup>)
    ensures
        g == math_char(c),
{
    if ('a' <= c && c <= 'z') || ('A' <= c && c <= 'Z') {
        Some(SymbolGroup::MathOrd)
    } else if '0' <= c && c <= '9' {
        Some(SymbolGroup::TextOrd)
    } else if c == '+' || c == '-' || c == '*' {
        Some(SymbolGroup::Bin)
    } else if c == '=' || c == '<' || c == '>' || c == ':' {
        Some(SymbolGroup::Rel)
    } else if c == '(' || c == '[' {
        Some(SymbolGroup::Open)
    } else if c == ')' || c == ']' || c == '?' || c == '!' {
        Some(SymbolGroup::Close)
    } else if c == ',' || c == ';' {
        Some(SymbolGroup::Punct)
    } else if c == '.' || c == '/' || c == '|' || c == '@' || c == '"' || c == '`' {
        Some(SymbolGroup::TextOrd)
    } else {
        None
    }
}

fn text_char_group(c: char) -> (g: Option<SymbolGroup>)
    ensures
        g == text_char(c),
{
    if ('a' <= c && c <= 'z') || ('A' <= c && c <= 'Z') || ('0' <= c && c <= '9') {
        Some(SymbolGroup::TextOrd)
    } else if c == ' ' {
        Some(SymbolGroup::Spacing)
    } else if c == '+' || c == '-' || c == '*' || c == '=' || c == '<' || c == '>' || c == ':'
        || c == '(' || c == '[' || c == ')' || c == ']' || c == '?' || c == '!' || c == ','
        || c == ';' || c == '.' || c == '/' || c == '|' || c == '@' || c == '"' || c == '`'
        || c == '\'' {
        Some(SymbolGroup::TextOrd)
    } else {
        None
    }
}

fn math_name_group(name: &str) -> (g: Option<SymbolGroup>)
    ensures
        g == math_name(name@),
{
    if name.eq("\\alpha") {
        Some(SymbolGroup::MathOrd)
    } else if name.eq("\\beta") {
        Some(SymbolGroup::MathOrd)
    } else if name.eq("\\gamma") {
        Some(SymbolGroup::MathOrd)
    } else if name.eq("\\delta") {
        Some(SymbolGroup::MathOrd)
    } else if name.eq("\\epsilon") {
        Some(SymbolGroup::MathOrd)
    } else if name.eq("\\theta") {
        Some(SymbolGroup::MathOrd)
    } else if name.eq("\\lambda") {
        Some(SymbolGroup::MathOrd)
    } else if name.eq("\\mu") {
        Some(SymbolGroup::MathOrd)
    } else if name.eq("\\pi") {
        Some(SymbolGroup::MathOrd)
    } else if name.eq("\\sigma") {
        Some(SymbolGroup::MathOrd)
    } else if name.eq("\\phi") {
        Some(SymbolGroup::MathOrd)
    } else if name.eq("\\omega") {
        Some(SymbolGroup::MathOrd)
    } else if name.eq("\\infty") {
        Some(SymbolGroup::TextOrd)
    } else if name.eq("\\times") {
        Some(SymbolGroup::Bin)
    } else if name.eq("\\cdot") {
        Some(SymbolGroup::Bin)
    } else if name.eq("\\pm") {
        Some(SymbolGroup::Bin)
    } else if name.eq("\\div") {
        Some(SymbolGroup::Bin)
    } else if name.eq("\\leq") {
        Some(SymbolGroup::Rel)
    } else if name.eq("\\geq") {
        Some(SymbolGroup::Rel)
    } else if name.eq("\\neq") {
        Some(SymbolGroup::Rel)
    } else if name.eq("\\to") {
        Some(SymbolGroup::Rel)
    } else if name.eq("\\in") {
        Some(SymbolGroup::Rel)
    } else if name.eq("\\{") {
        Some(SymbolGroup::Open)
    } else if name.eq("\\}") {
        Some(SymbolGroup::Close)
    } else if name.eq("\\langle") {
        Some(SymbolGroup::Open)
    } else if name.eq("\\rangle") {
        Some(SymbolGroup::Close)
    } else if name.eq("\\ldots") {
        Some(SymbolGroup::Inner)
    } else if name.eq("\\cdots") {
        Some(SymbolGroup::Inner)
    } else if name.eq("\\ ") {
        Some(SymbolGroup::Spacing)
    } else if name.eq("\\,") {
        Some(SymbolGroup::Spacing)
    } else if name.eq("\\;") {
        Some(SymbolGroup::Spacing)
    } else if name.eq("\\!") {
        Some(SymbolGroup::Spacing)
    } else if name.eq("\\quad") {
        Some(SymbolGroup::Spacing)
    } else if name.eq("\\nobreakspace") {
        Some(SymbolGroup::Spacing)
    } else {
        None
    }
}

fn text_name_group(name: &str) -> (g: Option<SymbolGroup>)
    ensures
        g == text_name(name@),
{
    if name.eq("\\{") {
        Some(SymbolGroup::TextOrd)
    } else if name.eq("\\}") {
        Some(SymbolGroup::TextOrd)
    } else if name.eq("\\$") {
        Some(SymbolGroup::TextOrd)
    } else if name.eq("\\%") {
        Some(SymbolGroup::TextOrd)
    } else if name.eq("\\&") {
        Some(SymbolGroup::TextOrd)
    } else if name.eq("\\#") {
        Some(SymbolGroup::TextOrd)
    } else if name.eq("\\_") {
        Some(SymbolGroup::TextOrd)
    } else if name.eq("\\ ") {
        Some(SymbolGroup::Spacing)
    } else if name.eq("\\nobreakspace") {
        Some(SymbolGroup::Spacing)
    } else {
        None
    }
}

/// Looks `name` up in the symbol table of `mode`.
pub fn lookup_symbol(mode: Mode, name: &str) -> (g: Option<SymbolGroup>)
    ensures
        g == symbol(mode, name@),
{
    if name.unicode_len() == 1 {
        let c = name.get_char(0);
        match mode {
            Mode::Math => math_char_group(c),
            Mode::Text => text_char_group(c),
        }
    } else {
        match mode {
            Mode::Math => math_name_group(name),
            Mode::Text => text_name_group(name),
        }
    }
}

/// The end marker is no symbol.
pub proof fn lemma_symbols_are_not_eof()
    ensures
        math_symbol(crate::lexer::eof_text()) is None,
        text_symbol(crate::lexer::eof_text()) is None,
{
    reveal_strlit("EOF");
    assert("EOF"@.len() == 3);
    assert("EOF"@[0] == 'E');
    reveal_strlit("\\ ");
    assert("\\ "@[0] == '\\');
    reveal_strlit("\\!");
    assert("\\!"@[0] == '\\');
    reveal_strlit("\\#");
    assert("\\#"@[0] == '\\');
    reveal_strlit("\\$");
    assert("\\$"@[0] == '\\');
    reveal_strlit("\\%");
    assert("\\%"@[0] == '\\');
    reveal_strlit("\\&");
    assert("\\&"@[0] == '\\');
    reveal_strlit("\\,");
    assert("\\,"@[0] == '\\');
    reveal_strlit("\\;");
    assert("\\;"@[0] == '\\');
    reveal_strlit("\\_");
    assert("\\_"@[0] == '\\');
    reveal_strlit("\\alpha");
    assert("\\alpha"@[0] == '\\');
    reveal_strlit("\\beta");
    assert("\\beta"@[0] == '\\');
    reveal_strlit("\\cdot");
    assert("\\cdot"@[0] == '\\');
    reveal_strlit("\\cdots");
    assert("\\cdots"@[0] == '\\');
    reveal_strlit("\\delta");
    assert("\\delta"@[0] == '\\');
    reveal_strlit("\\div");
    assert("\\div"@[0] == '\\');
    reveal_strlit("\\epsilon");
    assert("\\epsilon"@[0] == '\\');
    reveal_strlit("\\gamma");
    assert("\\gamma"@[0] == '\\');
    reveal_strlit("\\geq");
    assert("\\geq"@[0] == '\\');
    reveal_strlit("\\in");
    assert("\\in"@[0] == '\\');
    reveal_strlit("\\infty");
    assert("\\infty"@[0] == '\\');
    reveal_strlit("\\lambda");
    assert("\\lambda"@[0] == '\\');
    reveal_strlit("\\langle");
    assert("\\langle"@[0] == '\\');
    reveal_strlit("\\ldots");
    assert("\\ldots"@[0] == '\\');
    reveal_strlit("\\leq");
    assert("\\leq"@[0] == '\\');
    reveal_strlit("\\mu");
    assert("\\mu"@[0] == '\\');
    reveal_strlit("\\neq");
    assert("\\neq"@[0] == '\\');
    reveal_strlit("\\nobreakspace");
    assert("\\nobreakspace"@[0] == '\\');
    reveal_strlit("\\omega");
    assert("\\omega"@[0] == '\\');
    reveal_strlit("\\phi");
    assert("\\phi"@[0] == '\\');
    reveal_strlit("\\pi");
    assert("\\pi"@[0] == '\\');
    reveal_strlit("\\pm");
    assert("\\pm"@[0] == '\\');
    reveal_strlit("\\quad");
    assert("\\quad"@[0] == '\\');
    reveal_strlit("\\rangle");
    assert("\\rangle"@[0] == '\\');
    reveal_strlit("\\sigma");
    assert("\\sigma"@[0] == '\\');
    reveal_strlit("\\theta");
    assert("\\theta"@[0] == '\\');
    reveal_strlit("\\times");
    assert("\\times"@[0] == '\\');
    reveal_strlit("\\to");
    assert("\\to"@[0] == '\\');
    reveal_strlit("\\{");
    assert("\\{"@[0] == '\\');
    reveal_strlit("\\}");
    assert("\\}"@[0] == '\\');
}

} // verus!
