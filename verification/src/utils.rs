//! Small helpers: lists, settings, text for markup, node boxes, URLs.

use vstd::prelude::*;
use vstd::std_specs::cmp::PartialEqSpec;
use crate::parse_node::AnyParseNode;
use crate::text::{chars_of, push_str, string_from};

verus! {

/// Return whether an element is contained in a list.
pub fn contains<T: PartialEq>(list: &[T], elem: &T) -> (found: bool)
    ensures
        T::obeys_eq_spec() ==> found == exists|i: int|
            0 <= i < list@.len() && (#[trigger] list@[i]).eq_spec(elem),
{
    let mut i: usize = 0;
    while i < list.len()
        invariant
            i <= list.len(),
            T::obeys_eq_spec() ==> forall|j: int| 0 <= j < i ==> !(#[trigger] list@[j]).eq_spec(elem),
        decreases list.len() - i,
    {
        if list[i] == *elem {
            return true;
        }
        i += 1;
    }
    false
}

/// Provide a default value if a setting is undefined.
pub fn deflt<T: Clone>(setting: Option<T>, default_if_undefined: T) -> (value: T)
    ensures
        value == match setting {
            Some(v) => v,
            None => default_if_undefined,
        },
{
    match setting {
        Some(v) => v,
        None => default_if_undefined,
    }
}

/// The lower-case form of `text`, as `str::to_lowercase` gives it.
pub uninterp spec fn lowercase_of(text: Seq<char>) -> Seq<char>;

/// `str::to_lowercase` of the standard library: the lower-case form of
/// `text` by the rules of Unicode. Taken on trust; the contract only gives
/// the result a name.
#[verifier::external_body]
fn to_lowercase(text: &str) -> (lower: String)
    ensures
        lower@ == lowercase_of(text@),
{
    text.to_lowercase()
}

/// `text` with a hyphen before every capital letter from `A` to `Z`.
pub open spec fn hyphen_marked(text: Seq<char>) -> Seq<char>
    decreases text.len(),
{
    if text.len() == 0 {
        Seq::empty()
    } else if 'A' <= text.last() && text.last() <= 'Z' {
        hyphen_marked(text.drop_last()).push('-').push(text.last())
    } else {
        hyphen_marked(text.drop_last()).push(text.last())
    }
}

/// Hyphenates a string: `backgroundColor` becomes `background-color`.
pub fn hyphenate(str: &str) -> (hyphenated: String)
    ensures
        hyphenated@ == lowercase_of(hyphen_marked(str@)),
{
    let chars = chars_of(str);
    let mut marked: Vec<char> = Vec::new();
    let mut i: usize = 0;
    assert(chars@.subrange(0, 0) =~= Seq::<char>::empty());
    while i < chars.len()
        invariant
            i <= chars.len(),
            marked@ == hyphen_marked(chars@.subrange(0, i as int)),
        decreases chars.len() - i,
    {
        let c = chars[i];
        if 'A' <= c && c <= 'Z' {
            marked.push('-');
        }
        marked.push(c);
        i += 1;
        assert(chars@.subrange(0, i as int).drop_last() =~= chars@.subrange(0, i - 1));
    }
    assert(chars@.subrange(0, chars.len() as int) =~= chars@);
    to_lowercase(string_from(&marked).as_str())
}

/// What stands for `c` in markup: the entity of a character that markup
/// gives a meaning to, else the character itself.
pub open spec fn escaped_char(c: char) -> Seq<char> {
    if c == '&' {
        "&amp;"@
    } else if c == '>' {
        "&gt;"@
    } else if c == '<' {
        "&lt;"@
    } else if c == '"' {
        "&quot;"@
    } else if c == '\'' {
        "&#x27;"@
    } else {
        seq![c]
    }
}

/// `text` with every character escaped.
pub open spec fn escaped(text: Seq<char>) -> Seq<char>
    decreases text.len(),
{
    if text.len() == 0 {
        Seq::empty()
    } else {
        escaped(text.drop_last()) + escaped_char(text.last())
    }
}

/// Appends the escaped form of `text` to `buf`.
pub fn push_escaped(buf: &mut Vec<char>, text: &str)
    ensures
        final(buf)@ == old(buf)@ + escaped(text@),
{
    let chars = chars_of(text);
    let ghost start = buf@;
    let mut i: usize = 0;
    assert(chars@.subrange(0, 0) =~= Seq::<char>::empty());
    assert(buf@ =~= start + escaped(chars@.subrange(0, 0)));
    while i < chars.len()
        invariant
            i <= chars.len(),
            buf@ == start + escaped(chars@.subrange(0, i as int)),
        decreases chars.len() - i,
    {
        let c = chars[i];
        let ghost before = buf@;
        if c == '&' {
            push_str(buf, "&amp;");
        } else if c == '>' {
            push_str(buf, "&gt;");
        } else if c == '<' {
            push_str(buf, "&lt;");
        } else if c == '"' {
            push_str(buf, "&quot;");
        } else if c == '\'' {
            push_str(buf, "&#x27;");
        } else {
            buf.push(c);
            assert(buf@ =~= before + seq![c]);
        }
        i += 1;
        proof {
            let part = chars@.subrange(0, i as int);
            assert(part.drop_last() =~= chars@.subrange(0, i - 1));
            assert(buf@ =~= start + escaped(part));
        }
    }
    assert(chars@.subrange(0, chars.len() as int) =~= chars@);
}

/// Escapes text to prevent scripting attacks.
pub fn escape(text: &str) -> (safe: String)
    ensures
        safe@ == escaped(text@),
{
    let mut buf: Vec<char> = Vec::new();
    push_escaped(&mut buf, text);
    assert(buf@ =~= escaped(text@));
    string_from(&buf)
}

/// The innermost element of a group: a group or a colored group with a
/// single element stands for that element, a font change for its body.
pub open spec fn base_elem(group: AnyParseNode) -> AnyParseNode
    decreases group,
{
    match group {
        AnyParseNode::OrdGroup(g) => if g.body@.len() == 1 {
            base_elem(g.body@[0])
        } else {
            group
        },
        AnyParseNode::Color(c) => if c.body@.len() == 1 {
            base_elem(c.body@[0])
        } else {
            group
        },
        AnyParseNode::Font(f) => base_elem(*f.body),
        _ => group,
    }
}

/// Sometimes we want to pull out the innermost element of a group. In most
/// cases, this will just be the group itself, but when ordgroups and colors
/// have a single element, we want to pull that out.
pub fn get_base_elem(group: &AnyParseNode) -> (base: &AnyParseNode)
    ensures
        *base == base_elem(*group),
    decreases *group,
{
    match group {
        AnyParseNode::OrdGroup(g) => {
            if g.body.len() == 1 {
                get_base_elem(&g.body[0])
            } else {
                group
            }
        },
        AnyParseNode::Color(c) => {
            if c.body.len() == 1 {
                get_base_elem(&c.body[0])
            } else {
                group
            }
        },
        AnyParseNode::Font(f) => get_base_elem(&*f.body),
        _ => group,
    }
}

/// TeXbook algorithms often reference "character boxes", which are simply
/// groups with a single character in them. To decide if something is a
/// character box, we find its innermost group, and see if it is a single
/// character.
pub fn is_character_box(group: &AnyParseNode) -> (b: bool)
    ensures
        b == (base_elem(*group) is MathOrd || base_elem(*group) is TextOrd || base_elem(
            *group,
        ) is Atom),
{
    match get_base_elem(group) {
        AnyParseNode::MathOrd(_) => true,
        AnyParseNode::TextOrd(_) => true,
        AnyParseNode::Atom(_) => true,
        _ => false,
    }
}

/// What the regular expression `pattern` captures at its first match in
/// `text`: one entry for each group, the whole match first, empty where a
/// group took no part. Nothing if `pattern` does not match, or is no
/// regular expression.
pub uninterp spec fn regex_captures(pattern: Seq<char>, text: Seq<char>) -> Option<
    Seq<Option<Seq<char>>>,
>;

/// The texts of the groups.
pub open spec fn group_views(groups: Seq<Option<String>>) -> Seq<Option<Seq<char>>> {
    Seq::new(
        groups.len(),
        |i: int|
            match groups[i] {
                Some(g) => Some(g@),
                None => None,
            },
    )
}

/// `regex::Regex::new` and `Regex::captures` of the crate `regex`: compiles
/// `pattern` and searches `text` for its first match. Taken on trust; the
/// contract only gives the result a name, which stands for the groups of
/// that match, or for nothing where there is no match or `pattern` does not
/// compile.
#[verifier::external_body]
fn captures(pattern: &str, text: &str) -> (groups: Option<Vec<Option<String>>>)
    ensures
        match groups {
            Some(g) => regex_captures(pattern@, text@) == Some(group_views(g@)),
            None => regex_captures(pattern@, text@) is None,
        },
{
    match regex::Regex::new(pattern) {
        Ok(re) => re.captures(text).map(
            |found| found.iter().map(|group| group.map(|m| m.as_str().to_string())).collect(),
        ),
        Err(_) => None,
    }
}

/// A URL scheme as RFC 3986 allows it: a letter, then letters, digits,
/// `+`, `-` and `.`.
pub open spec fn is_scheme(text: Seq<char>) -> bool {
    &&& text.len() > 0
    &&& is_ascii_letter(text[0])
    &&& forall|i: int|
        0 <= i < text.len() ==> is_ascii_letter(#[trigger] text[i]) || ('0' <= text[i] && text[i]
            <= '9') || text[i] == '+' || text[i] == '-' || text[i] == '.'
}

pub open spec fn is_ascii_letter(c: char) -> bool {
    ('a' <= c && c <= 'z') || ('A' <= c && c <= 'Z')
}

/// `c` in lower case, if it is a capital letter from `A` to `Z`.
pub open spec fn ascii_lower(c: char) -> char {
    if 'A' <= c && c <= 'Z' {
        ((c as u8) + 32u8) as char
    } else {
        c
    }
}

/// The pattern that finds the protocol at the start of a URL: leading
/// whitespace and control characters, the protocol, and a colon, plain or as
/// an HTML entity.
pub open spec fn protocol_pattern() -> Seq<char> {
    "^[\\x00-\\x20]*([^\\\\/#?]*?)(:|&#0*58|&#x0*3a|&colon)"@
}

/// The protocol that the captures of the protocol pattern stand for:
/// `_relative` if the pattern did not match; nothing if the colon is not a
/// plain one or the protocol is no scheme; else the protocol in lower case.
pub open spec fn protocol_of(groups: Option<Seq<Option<Seq<char>>>>) -> Option<Seq<char>> {
    match groups {
        None => Some("_relative"@),
        Some(g) => if g.len() >= 3 && g[2] == Some(seq![':']) && (g[1] matches Some(scheme)
            && is_scheme(scheme)) {
            Some(g[1]->0.map_values(|c: char| ascii_lower(c)))
        } else {
            None
        },
    }
}

/// Decides on the protocol of a URL from what the protocol pattern captured
/// in it.
#[verifier::loop_isolation(false)]
pub fn protocol_from_captures(groups: Option<Vec<Option<String>>>) -> (protocol: Option<String>)
    ensures
        match protocol {
            Some(p) => protocol_of(
                match groups {
                    Some(g) => Some(group_views(g@)),
                    None => None,
                },
            ) == Some(p@),
            None => protocol_of(
                match groups {
                    Some(g) => Some(group_views(g@)),
                    None => None,
                },
            ) is None,
        },
{
    let groups = match groups {
        Some(g) => g,
        None => {
            return Some(String::from_str("_relative"));
        },
    };
    if groups.len() < 3 {
        return None;
    }
    // Reject weird colons
    match &groups[2] {
        Some(colon) => {
            if !crate::text::is_char(colon, ':') {
                return None;
            }
        },
        None => {
            return None;
        },
    }
    let scheme = match &groups[1] {
        Some(scheme) => chars_of(scheme.as_str()),
        None => {
            return None;
        },
    };
    // Reject invalid characters in scheme according to
    // https://datatracker.ietf.org/doc/html/rfc3986#section-3.1
    if scheme.len() == 0 || !(('a' <= scheme[0] && scheme[0] <= 'z') || ('A' <= scheme[0]
        && scheme[0] <= 'Z')) {
        return None;
    }
    let mut lower: Vec<char> = Vec::new();
    let mut i: usize = 0;
    while i < scheme.len()
        invariant
            i <= scheme.len(),
            lower@ == scheme@.subrange(0, i as int).map_values(|c: char| ascii_lower(c)),
            forall|j: int|
                0 <= j < i ==> is_ascii_letter(#[trigger] scheme@[j]) || ('0' <= scheme@[j]
                    && scheme@[j] <= '9') || scheme@[j] == '+' || scheme@[j] == '-' || scheme@[j]
                    == '.',
        decreases scheme.len() - i,
    {
        let c = scheme[i];
        if 'A' <= c && c <= 'Z' {
            // Lowercase the protocol
            let code: u8 = c as u8;
            lower.push((code + 32) as char);
        } else if ('a' <= c && c <= 'z') || ('0' <= c && c <= '9') || c == '+' || c == '-' || c
            == '.' {
            lower.push(c);
        } else {
            assert(!(is_ascii_letter(scheme@[i as int]) || ('0' <= scheme@[i as int]
                && scheme@[i as int] <= '9') || scheme@[i as int] == '+' || scheme@[i as int]
                == '-' || scheme@[i as int] == '.'));
            return None;
        }
        i += 1;
        assert(lower@ =~= scheme@.subrange(0, i as int).map_values(|c: char| ascii_lower(c)));
    }
    assert(scheme@.subrange(0, scheme.len() as int) =~= scheme@);
    Some(string_from(&lower))
}

/// Return the protocol of a URL, or "_relative" if the URL does not specify a
/// protocol (and thus is relative), or nothing if URL has invalid protocol
/// (so should be outright rejected).
pub fn protocol_from_url(url: &str) -> (protocol: Option<String>)
    ensures
        match protocol {
            Some(p) => protocol_of(regex_captures(protocol_pattern(), url@)) == Some(p@),
            None => protocol_of(regex_captures(protocol_pattern(), url@)) is None,
        },
{
    // Check for possible leading protocol.
    // https://url.spec.whatwg.org/#url-parsing strips leading whitespace
    // (U+20) or C0 control (U+00-U+1F) characters.
    let groups = captures("^[\\x00-\\x20]*([^\\\\/#?]*?)(:|&#0*58|&#x0*3a|&colon)", url);
    protocol_from_captures(groups)
}

} // verus!
