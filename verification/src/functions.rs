//! The function table: the commands that the parser handles itself, with the
//! number of arguments each takes and how it may be used; and the macros
//! that every namespace starts with.

use vstd::prelude::*;
use crate::namespace::{MacroDefinition, MacroDefinitionView, MacroEntry, layer_map};

verus! {

/// What the parser does with a command.
#[derive(Clone, Copy, Debug, PartialEq, Eq, Structural)]
pub enum FunctionKind {
    /// A fraction or a binomial: numerator and denominator.
    Genfrac,
    /// An infix operator, which takes what stands before and after it.
    Infix,
    /// Defines a macro.
    Def,
    /// Does nothing.
    Relax,
    /// Sets the tag of a display equation.
    Tag,
    /// Opens content between delimiters that grow with it.
    Left,
    /// Closes such content.
    Right,
    /// A delimiter in the middle of such content.
    Middle,
    /// Sets its argument in text mode.
    Text,
}

/// The table's entry for one command.
#[derive(Clone, Copy, Debug, PartialEq, Eq, Structural)]
pub struct FunctionSpec {
    pub kind: FunctionKind,
    /// The number of arguments that the parser reads for it.
    pub num_args: usize,
    /// A primitive is never expanded.
    pub primitive: bool,
    pub infix: bool,
    pub allowed_in_text: bool,
}

impl FunctionSpec {
    /// An ordinary command of math mode.
    pub open spec fn spec_plain(kind: FunctionKind, num_args: usize) -> FunctionSpec {
        FunctionSpec { kind, num_args, primitive: false, infix: false, allowed_in_text: false }
    }

    #[verifier::when_used_as_spec(spec_plain)]
    pub fn plain(kind: FunctionKind, num_args: usize) -> (f: FunctionSpec)
        ensures
            f == Self::spec_plain(kind, num_args),
    {
        FunctionSpec { kind, num_args, primitive: false, infix: false, allowed_in_text: false }
    }

    /// An infix operator.
    pub open spec fn spec_infix() -> FunctionSpec {
        FunctionSpec {
            kind: FunctionKind::Infix,
            num_args: 0,
            primitive: false,
            infix: true,
            allowed_in_text: false,
        }
    }

    #[verifier::when_used_as_spec(spec_infix)]
    pub fn infix() -> (f: FunctionSpec)
        ensures
            f == Self::spec_infix(),
    {
        FunctionSpec {
            kind: FunctionKind::Infix,
            num_args: 0,
            primitive: false,
            infix: true,
            allowed_in_text: false,
        }
    }

    /// A primitive, which reads what it needs from the token stream itself.
    pub open spec fn spec_primitive(kind: FunctionKind, allowed_in_text: bool) -> FunctionSpec {
        FunctionSpec { kind, num_args: 0, primitive: true, infix: false, allowed_in_text }
    }

    #[verifier::when_used_as_spec(spec_primitive)]
    pub fn primitive(kind: FunctionKind, allowed_in_text: bool) -> (f: FunctionSpec)
        ensures
            f == Self::spec_primitive(kind, allowed_in_text),
    {
        FunctionSpec { kind, num_args: 0, primitive: true, infix: false, allowed_in_text }
    }
}

/// The entry of `name` in the function table.
pub open spec fn function_spec(name: Seq<char>) -> Option<FunctionSpec> {
    if name == "\\frac"@ || name == "\\dfrac"@ || name == "\\tfrac"@ || name == "\\binom"@
        || name == "\\dbinom"@ || name == "\\tbinom"@ || name == "\\\\atopfrac"@ || name
        == "\\\\bracefrac"@ || name == "\\\\brackfrac"@ {
        Some(FunctionSpec::plain(FunctionKind::Genfrac, 2))
    } else if name == "\\\\abovefrac"@ {
        Some(FunctionSpec::plain(FunctionKind::Genfrac, 3))
    } else if name == "\\over"@ || name == "\\choose"@ || name == "\\atop"@ || name
        == "\\brace"@ || name == "\\brack"@ {
        Some(FunctionSpec::infix())
    } else if name == "\\def"@ || name == "\\gdef"@ {
        Some(FunctionSpec::primitive(FunctionKind::Def, true))
    } else if name == "\\tag"@ {
        Some(FunctionSpec::primitive(FunctionKind::Tag, false))
    } else if name == "\\left"@ {
        Some(FunctionSpec::primitive(FunctionKind::Left, false))
    } else if name == "\\right"@ {
        Some(FunctionSpec::primitive(FunctionKind::Right, false))
    } else if name == "\\middle"@ {
        Some(FunctionSpec::primitive(FunctionKind::Middle, false))
    } else if name == "\\text"@ {
        Some(
            FunctionSpec {
                kind: FunctionKind::Text,
                num_args: 1,
                primitive: false,
                infix: false,
                allowed_in_text: true,
            },
        )
    } else if name == "\\relax"@ {
        Some(
            FunctionSpec {
                kind: FunctionKind::Relax,
                num_args: 0,
                primitive: false,
                infix: false,
                allowed_in_text: true,
            },
        )
    } else {
        None
    }
}

/// Looks `name` up in the function table.
pub fn lookup_function(name: &str) -> (spec: Option<FunctionSpec>)
    ensures
        spec == function_spec(name@),
{
    if name.eq("\\frac") || name.eq("\\dfrac") || name.eq("\\tfrac") || name.eq("\\binom")
        || name.eq("\\dbinom") || name.eq("\\tbinom") || name.eq("\\\\atopfrac") || name.eq(
        "\\\\bracefrac",
    ) || name.eq("\\\\brackfrac") {
        Some(FunctionSpec::plain(FunctionKind::Genfrac, 2))
    } else if name.eq("\\\\abovefrac") {
        Some(FunctionSpec::plain(FunctionKind::Genfrac, 3))
    } else if name.eq("\\over") || name.eq("\\choose") || name.eq("\\atop") || name.eq("\\brace")
        || name.eq("\\brack") {
        Some(FunctionSpec::infix())
    } else if name.eq("\\def") || name.eq("\\gdef") {
        Some(FunctionSpec::primitive(FunctionKind::Def, true))
    } else if name.eq("\\tag") {
        Some(FunctionSpec::primitive(FunctionKind::Tag, false))
    } else if name.eq("\\left") {
        Some(FunctionSpec::primitive(FunctionKind::Left, false))
    } else if name.eq("\\right") {
        Some(FunctionSpec::primitive(FunctionKind::Right, false))
    } else if name.eq("\\middle") {
        Some(FunctionSpec::primitive(FunctionKind::Middle, false))
    } else if name.eq("\\text") {
        Some(
            FunctionSpec {
                kind: FunctionKind::Text,
                num_args: 1,
                primitive: false,
                infix: false,
                allowed_in_text: true,
            },
        )
    } else if name.eq("\\relax") {
        Some(
            FunctionSpec {
                kind: FunctionKind::Relax,
                num_args: 0,
                primitive: false,
                infix: false,
                allowed_in_text: true,
            },
        )
    } else {
        None
    }
}

/// The command that an infix operator is rewritten to.
pub open spec fn infix_replacement(name: Seq<char>) -> Seq<char>
    recommends
        function_spec(name) matches Some(f) && f.infix,
{
    if name == "\\choose"@ {
        "\\binom"@
    } else if name == "\\atop"@ {
        "\\\\atopfrac"@
    } else if name == "\\brace"@ {
        "\\\\bracefrac"@
    } else if name == "\\brack"@ {
        "\\\\brackfrac"@
    } else {
        "\\frac"@
    }
}

/// The command that the infix operator `name` is rewritten to.
pub fn replacement_of(name: &str) -> (replacement: String)
    ensures
        replacement@ == infix_replacement(name@),
{
    if name.eq("\\choose") {
        String::from_str("\\binom")
    } else if name.eq("\\atop") {
        String::from_str("\\\\atopfrac")
    } else if name.eq("\\brace") {
        String::from_str("\\\\bracefrac")
    } else if name.eq("\\brack") {
        String::from_str("\\\\brackfrac")
    } else {
        String::from_str("\\frac")
    }
}

/// Whether `text` can stand as a delimiter after `\\left`, `\\right` and
/// `\\middle`.
pub open spec fn is_delimiter(text: Seq<char>) -> bool {
    text == "("@ || text == ")"@ || text == "["@ || text == "]"@ || text == "\\{"@ || text
        == "\\}"@ || text == "\\langle"@ || text == "\\rangle"@ || text == "<"@ || text
        == ">"@ || text == "/"@ || text == "|"@ || text == "."@
}

/// Whether `text` can stand as a delimiter.
pub fn delimits(text: &str) -> (b: bool)
    ensures
        b == is_delimiter(text@),
{
    text.eq("(") || text.eq(")") || text.eq("[") || text.eq("]") || text.eq("\\{") || text.eq(
        "\\}",
    ) || text.eq("\\langle") || text.eq("\\rangle") || text.eq("<") || text.eq(">") || text.eq(
        "/",
    ) || text.eq("|") || text.eq(".")
}

/// The macros that are built in: each name with its expansion text.
pub open spec fn builtin_macro_map() -> Map<Seq<char>, MacroDefinitionView> {
    Map::empty().insert("\\bgroup"@, MacroDefinitionView::Text("{"@)).insert(
        "\\egroup"@,
        MacroDefinitionView::Text("}"@),
    ).insert("~"@, MacroDefinitionView::Text("\\nobreakspace"@)).insert(
        "\\lq"@,
        MacroDefinitionView::Text("`"@),
    ).insert("\\rq"@, MacroDefinitionView::Text("'"@)).insert(
        "\\lbrack"@,
        MacroDefinitionView::Text("["@),
    ).insert("\\rbrack"@, MacroDefinitionView::Text("]"@))
}

fn push_text_macro(entries: &mut Vec<MacroEntry>, name: &str, expansion: &str)
    ensures
        layer_map(final(entries)@) == layer_map(old(entries)@).insert(
            name@,
            MacroDefinitionView::Text(expansion@),
        ),
{
    entries.push(
        MacroEntry {
            name: String::from_str(name),
            definition: Some(MacroDefinition::Text(String::from_str(expansion))),
        },
    );
    assert(entries@.drop_last() =~= old(entries)@);
}

/// The macros that are built in, as the entries of a layer.
pub fn builtin_macros() -> (entries: Vec<MacroEntry>)
    ensures
        layer_map(entries@) == builtin_macro_map(),
{
    let mut entries: Vec<MacroEntry> = Vec::new();
    push_text_macro(&mut entries, "\\bgroup", "{");
    push_text_macro(&mut entries, "\\egroup", "}");
    push_text_macro(&mut entries, "~", "\\nobreakspace");
    push_text_macro(&mut entries, "\\lq", "`");
    push_text_macro(&mut entries, "\\rq", "'");
    push_text_macro(&mut entries, "\\lbrack", "[");
    push_text_macro(&mut entries, "\\rbrack", "]");
    entries
}

} // verus!
