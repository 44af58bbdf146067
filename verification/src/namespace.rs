//! The macro namespace: a base layer of definitions and, above it, one
//! overlay for each open group.

use vstd::prelude::*;
use crate::text::is_text;
use crate::token::{Token, TokenView, clone_tokens, token_views};

verus! {

/// A macro's expansion: its body, the number of arguments it takes, and the
/// delimiters of its parameter text where it has any.
///
/// The body is stored reversed, so that its first token is the one that a
/// stack pops first. `delimiters`, if present, should hold `num_args + 1`
/// strings: the first is what follows the macro's name, each other one ends
/// one argument; every character of a delimiter is the text of one token.
#[derive(Debug)]
pub struct MacroExpansion {
    pub tokens: Vec<Token>,
    pub num_args: usize,
    pub delimiters: Option<Vec<String>>,
}

/// What an expansion is, as a mathematical value.
pub struct MacroExpansionView {
    pub tokens: Seq<TokenView>,
    pub num_args: nat,
    pub delimiters: Option<Seq<Seq<char>>>,
}

/// The character sequences of a sequence of strings.
pub open spec fn string_views(strings: Seq<String>) -> Seq<Seq<char>> {
    Seq::new(strings.len(), |i: int| strings[i]@)
}

impl View for MacroExpansion {
    type V = MacroExpansionView;

    open spec fn view(&self) -> MacroExpansionView {
        MacroExpansionView {
            tokens: token_views(self.tokens@),
            num_args: self.num_args as nat,
            delimiters: match self.delimiters {
                Some(d) => Some(string_views(d@)),
                None => None,
            },
        }
    }
}

/// What a name stands for: a text that is cut into tokens when the macro is
/// used, or a ready expansion.
#[derive(Debug)]
pub enum MacroDefinition {
    Text(String),
    Expansion(MacroExpansion),
}

pub enum MacroDefinitionView {
    Text(Seq<char>),
    Expansion(MacroExpansionView),
}

impl View for MacroDefinition {
    type V = MacroDefinitionView;

    open spec fn view(&self) -> MacroDefinitionView {
        match self {
            MacroDefinition::Text(s) => MacroDefinitionView::Text(s@),
            MacroDefinition::Expansion(e) => MacroDefinitionView::Expansion(e@),
        }
    }
}

/// A copy of `strings`.
pub fn clone_strings(strings: &Vec<String>) -> (copy: Vec<String>)
    ensures
        copy@ == strings@,
{
    let mut copy: Vec<String> = Vec::new();
    let mut i: usize = 0;
    while i < strings.len()
        invariant
            i <= strings.len(),
            copy@ == strings@.subrange(0, i as int),
        decreases strings.len() - i,
    {
        copy.push(strings[i].clone());
        i += 1;
        assert(copy@ =~= strings@.subrange(0, i as int));
    }
    assert(strings@.subrange(0, strings.len() as int) =~= strings@);
    copy
}

impl Clone for MacroExpansion {
    fn clone(&self) -> (copy: Self)
        ensures
            copy@ == self@,
    {
        MacroExpansion {
            tokens: clone_tokens(&self.tokens),
            num_args: self.num_args,
            delimiters: match &self.delimiters {
                Some(d) => Some(clone_strings(d)),
                None => None,
            },
        }
    }
}

impl Clone for MacroDefinition {
    fn clone(&self) -> (copy: Self)
        ensures
            copy@ == self@,
    {
        match self {
            MacroDefinition::Text(s) => MacroDefinition::Text(s.clone()),
            MacroDefinition::Expansion(e) => MacroDefinition::Expansion(e.clone()),
        }
    }
}

/// One entry of a layer: a name and what it stands for from here on, or
/// nothing where the name is taken out of the layer.
#[derive(Debug)]
pub struct MacroEntry {
    pub name: String,
    pub definition: Option<MacroDefinition>,
}

/// The map that a layer's entries amount to: a later entry overrides an
/// earlier one of the same name.
pub open spec fn layer_map(entries: Seq<MacroEntry>) -> Map<Seq<char>, MacroDefinitionView>
    decreases entries.len(),
{
    if entries.len() == 0 {
        Map::empty()
    } else {
        let rest = layer_map(entries.drop_last());
        match entries.last().definition {
            Some(d) => rest.insert(entries.last().name@, d@),
            None => rest.remove(entries.last().name@),
        }
    }
}

/// The maps of a stack of layers.
pub open spec fn layer_maps(layers: Seq<Vec<MacroEntry>>) -> Seq<
    Map<Seq<char>, MacroDefinitionView>,
> {
    Seq::new(layers.len(), |i: int| layer_map(layers[i]@))
}

/// The namespace as a mathematical value: the base layer and the overlays,
/// the innermost group's last.
pub struct NamespaceView {
    pub base: Map<Seq<char>, MacroDefinitionView>,
    pub overlays: Seq<Map<Seq<char>, MacroDefinitionView>>,
}

impl NamespaceView {
    /// The definition of `name`: that of the topmost overlay that has the
    /// name, else that of the base layer.
    pub open spec fn get(self, name: Seq<char>) -> Option<MacroDefinitionView>
        decreases self.overlays.len(),
    {
        if self.overlays.len() == 0 {
            if self.base.contains_key(name) {
                Some(self.base[name])
            } else {
                None
            }
        } else if self.overlays.last().contains_key(name) {
            Some(self.overlays.last()[name])
        } else {
            (NamespaceView { overlays: self.overlays.drop_last(), ..self }).get(name)
        }
    }

    pub open spec fn has(self, name: Seq<char>) -> bool {
        self.get(name) is Some
    }

    /// Defines `name` in the innermost open group, or in the base layer if no
    /// group is open.
    pub open spec fn insert(self, name: Seq<char>, definition: MacroDefinitionView) -> NamespaceView {
        if self.overlays.len() == 0 {
            NamespaceView { base: self.base.insert(name, definition), ..self }
        } else {
            NamespaceView {
                overlays: self.overlays.update(
                    self.overlays.len() - 1,
                    self.overlays.last().insert(name, definition),
                ),
                ..self
            }
        }
    }

    /// Defines `name` in every layer.
    pub open spec fn insert_global(
        self,
        name: Seq<char>,
        definition: MacroDefinitionView,
    ) -> NamespaceView {
        NamespaceView {
            base: self.base.insert(name, definition),
            overlays: Seq::new(
                self.overlays.len(),
                |i: int| self.overlays[i].insert(name, definition),
            ),
        }
    }

    /// Takes `name` out of every layer.
    pub open spec fn remove(self, name: Seq<char>) -> NamespaceView {
        NamespaceView {
            base: self.base.remove(name),
            overlays: Seq::new(self.overlays.len(), |i: int| self.overlays[i].remove(name)),
        }
    }

    pub open spec fn begin_group(self) -> NamespaceView {
        NamespaceView { overlays: self.overlays.push(Map::empty()), ..self }
    }

    pub open spec fn end_group(self) -> NamespaceView
        recommends
            self.overlays.len() > 0,
    {
        NamespaceView { overlays: self.overlays.drop_last(), ..self }
    }

    pub open spec fn end_groups(self) -> NamespaceView {
        NamespaceView { overlays: Seq::empty(), ..self }
    }
}

/// Closing a group when none is open.
#[derive(Debug)]
pub struct ScopeError;

/// A scoped dictionary of macros.
#[derive(Debug)]
pub struct Namespace {
    base: Vec<MacroEntry>,
    overlays: Vec<Vec<MacroEntry>>,
}

impl View for Namespace {
    type V = NamespaceView;

    closed spec fn view(&self) -> NamespaceView {
        NamespaceView { base: layer_map(self.base@), overlays: layer_maps(self.overlays@) }
    }
}

/// The last entry of `entries` that carries `name`, if any.
fn find_entry<'a>(entries: &'a Vec<MacroEntry>, name: &str) -> (found: Option<&'a MacroEntry>)
    ensures
        match found {
            Some(e) => e.name@ == name@ && match e.definition {
                Some(d) => layer_map(entries@).contains_key(name@) && layer_map(entries@)[name@]
                    == d@,
                None => !layer_map(entries@).contains_key(name@),
            },
            None => !layer_map(entries@).contains_key(name@),
        },
{
    let mut i: usize = entries.len();
    assert(entries@.subrange(0, i as int) =~= entries@);
    while i > 0
        invariant
            i <= entries.len(),
            layer_map(entries@).contains_key(name@) == layer_map(
                entries@.subrange(0, i as int),
            ).contains_key(name@),
            layer_map(entries@).contains_key(name@) ==> layer_map(entries@)[name@] == layer_map(
                entries@.subrange(0, i as int),
            )[name@],
        decreases i,
    {
        i -= 1;
        assert(entries@.subrange(0, i + 1).drop_last() =~= entries@.subrange(0, i as int));
        if is_text(&entries[i].name, name) {
            return Some(&entries[i]);
        }
    }
    None
}

impl Namespace {
    /// A namespace without open groups whose base layer holds `builtins`,
    /// overridden by `globals`.
    pub fn new(builtins: Vec<MacroEntry>, globals: &Vec<(String, String)>) -> (ns: Namespace)
        ensures
            ns@.overlays.len() == 0,
            ns@.base == with_globals(layer_map(builtins@), globals@),
    {
        let mut base = builtins;
        let mut i: usize = 0;
        while i < globals.len()
            invariant
                i <= globals.len(),
                layer_map(base@) == with_globals(
                    layer_map(builtins@),
                    globals@.subrange(0, i as int),
                ),
            decreases globals.len() - i,
        {
            let entry = MacroEntry {
                name: globals[i].0.clone(),
                definition: Some(MacroDefinition::Text(globals[i].1.clone())),
            };
            let ghost old_base = base@;
            base.push(entry);
            i += 1;
            proof {
                assert(globals@.subrange(0, i as int).drop_last() =~= globals@.subrange(
                    0,
                    i - 1,
                ));
                assert(base@.drop_last() =~= old_base);
            }
        }
        assert(globals@.subrange(0, globals.len() as int) =~= globals@);
        let ns = Namespace { base, overlays: Vec::new() };
        assert(ns@.overlays =~= Seq::empty());
        ns
    }

    /// Whether `name` is defined.
    pub fn has(&self, name: &str) -> (b: bool)
        ensures
            b == self@.has(name@),
    {
        self.get(name).is_some()
    }

    /// The definition of `name`, if it has one.
    pub fn get(&self, name: &str) -> (definition: Option<&MacroDefinition>)
        ensures
            match definition {
                Some(d) => self@.get(name@) == Some(d@),
                None => self@.get(name@) is None,
            },
    {
        let mut i: usize = self.overlays.len();
        let ghost whole = self@;
        assert(whole.overlays.subrange(0, i as int) =~= whole.overlays);
        while i > 0
            invariant
                i <= self.overlays.len(),
                whole == self@,
                whole.get(name@) == (NamespaceView {
                    overlays: whole.overlays.subrange(0, i as int),
                    ..whole
                }).get(name@),
            decreases i,
        {
            i -= 1;
            assert(whole.overlays.subrange(0, i + 1).drop_last() =~= whole.overlays.subrange(
                0,
                i as int,
            ));
            assert(whole.overlays.subrange(0, i + 1).last() == layer_map(self.overlays@[i as int]@));
            match find_entry(&self.overlays[i], name) {
                Some(entry) => {
                    match &entry.definition {
                        Some(d) => {
                            return Some(d);
                        },
                        None => {},
                    }
                },
                None => {},
            }
        }
        match find_entry(&self.base, name) {
            Some(entry) => {
                match &entry.definition {
                    Some(d) => Some(d),
                    None => None,
                }
            },
            None => None,
        }
    }

    /// Defines `name` in the innermost open group, or in the base layer if no
    /// group is open.
    pub fn insert(&mut self, name: String, definition: MacroDefinition)
        ensures
            final(self)@ == old(self)@.insert(name@, definition@),
    {
        let entry = MacroEntry { name, definition: Some(definition) };
        let n = self.overlays.len();
        if n == 0 {
            let ghost old_base = self.base@;
            self.base.push(entry);
            assert(self.base@.drop_last() =~= old_base);
            assert(self@.overlays =~= old(self)@.overlays);
        } else {
            let ghost old_top = self.overlays@[n - 1]@;
            let mut top = self.overlays.pop().unwrap();
            top.push(entry);
            assert(top@.drop_last() =~= old_top);
            self.overlays.push(top);
            assert(self@.overlays =~= old(self)@.insert(name@, definition@).overlays);
        }
    }

    /// Defines `name` in every layer, so that the definition outlives the
    /// open groups.
    pub fn insert_global(&mut self, name: String, definition: MacroDefinition)
        ensures
            final(self)@ == old(self)@.insert_global(name@, definition@),
    {
        let n = self.overlays.len();
        let mut lower: Vec<Vec<MacroEntry>> = Vec::new();
        let mut i: usize = 0;
        while i < n
            invariant
                i <= n,
                n == old(self).overlays.len(),
                self.base == old(self).base,
                lower.len() == i,
                self.overlays.len() == n - i,
                forall|j: int|
                    0 <= j < i ==> layer_map(#[trigger] lower@[j]@) == layer_map(
                        old(self).overlays@[n - 1 - j]@,
                    ).insert(name@, definition@),
                forall|j: int|
                    0 <= j < n - i ==> #[trigger] self.overlays@[j] == old(self).overlays@[j],
            decreases n - i,
        {
            let ghost old_top = self.overlays@[n - i - 1]@;
            let mut top = self.overlays.pop().unwrap();
            top.push(MacroEntry { name: name.clone(), definition: Some(definition.clone()) });
            assert(top@.drop_last() =~= old_top);
            lower.push(top);
            i += 1;
        }
        let mut k: usize = 0;
        while k < n
            invariant
                k <= n,
                n == old(self).overlays.len(),
                self.base == old(self).base,
                lower.len() == n - k,
                self.overlays.len() == k,
                forall|j: int|
                    0 <= j < n - k ==> layer_map(#[trigger] lower@[j]@) == layer_map(
                        old(self).overlays@[n - 1 - j]@,
                    ).insert(name@, definition@),
                forall|j: int|
                    0 <= j < k ==> layer_map(#[trigger] self.overlays@[j]@) == layer_map(
                        old(self).overlays@[j]@,
                    ).insert(name@, definition@),
            decreases n - k,
        {
            let layer = lower.pop().unwrap();
            self.overlays.push(layer);
            k += 1;
        }
        let ghost old_base = self.base@;
        self.base.push(MacroEntry { name, definition: Some(definition) });
        assert(self.base@.drop_last() =~= old_base);
        assert(self@.overlays =~= old(self)@.insert_global(name@, definition@).overlays);
    }

    /// Takes `name` out of every layer.
    pub fn remove(&mut self, name: &str)
        ensures
            final(self)@ == old(self)@.remove(name@),
    {
        let n = self.overlays.len();
        let mut lower: Vec<Vec<MacroEntry>> = Vec::new();
        let mut i: usize = 0;
        while i < n
            invariant
                i <= n,
                n == old(self).overlays.len(),
                self.base == old(self).base,
                lower.len() == i,
                self.overlays.len() == n - i,
                forall|j: int|
                    0 <= j < i ==> layer_map(#[trigger] lower@[j]@) == layer_map(
                        old(self).overlays@[n - 1 - j]@,
                    ).remove(name@),
                forall|j: int|
                    0 <= j < n - i ==> #[trigger] self.overlays@[j] == old(self).overlays@[j],
            decreases n - i,
        {
            let ghost old_top = self.overlays@[n - i - 1]@;
            let mut top = self.overlays.pop().unwrap();
            top.push(MacroEntry { name: String::from_str(name), definition: None });
            assert(top@.drop_last() =~= old_top);
            lower.push(top);
            i += 1;
        }
        let mut k: usize = 0;
        while k < n
            invariant
                k <= n,
                n == old(self).overlays.len(),
                self.base == old(self).base,
                lower.len() == n - k,
                self.overlays.len() == k,
                forall|j: int|
                    0 <= j < n - k ==> layer_map(#[trigger] lower@[j]@) == layer_map(
                        old(self).overlays@[n - 1 - j]@,
                    ).remove(name@),
                forall|j: int|
                    0 <= j < k ==> layer_map(#[trigger] self.overlays@[j]@) == layer_map(
                        old(self).overlays@[j]@,
                    ).remove(name@),
            decreases n - k,
        {
            let layer = lower.pop().unwrap();
            self.overlays.push(layer);
            k += 1;
        }
        let ghost old_base = self.base@;
        self.base.push(MacroEntry { name: String::from_str(name), definition: None });
        assert(self.base@.drop_last() =~= old_base);
        assert(self@.overlays =~= old(self)@.remove(name@).overlays);
    }

    /// Opens a group: definitions made from now on last until it is closed.
    pub fn begin_group(&mut self)
        ensures
            final(self)@ == old(self)@.begin_group(),
    {
        self.overlays.push(Vec::new());
        assert(self@.overlays =~= old(self)@.begin_group().overlays);
    }

    /// Closes the innermost group and forgets what was defined in it. Fails,
    /// and changes nothing, if no group is open.
    pub fn end_group(&mut self) -> (r: Result<(), ScopeError>)
        ensures
            match r {
                Ok(_) => old(self)@.overlays.len() > 0 && final(self)@ == old(self)@.end_group(),
                Err(_) => old(self)@.overlays.len() == 0 && final(self)@ == old(self)@,
            },
    {
        match self.overlays.pop() {
            Some(_) => {
                assert(self@.overlays =~= old(self)@.end_group().overlays);
                Ok(())
            },
            None => {
                assert(self@.overlays =~= old(self)@.overlays);
                Err(ScopeError)
            },
        }
    }

    /// Closes every open group. Safe on a namespace that has none.
    pub fn end_groups(&mut self)
        ensures
            final(self)@ == old(self)@.end_groups(),
    {
        self.overlays.clear();
        assert(self@.overlays =~= Seq::empty());
    }

    /// The number of open groups.
    pub fn depth(&self) -> (n: usize)
        ensures
            n == self@.overlays.len(),
    {
        self.overlays.len()
    }
}

/// `base` overridden by user-supplied macros: each name stands for its
/// expansion text, and a later entry overrides an earlier one.
pub open spec fn with_globals(
    base: Map<Seq<char>, MacroDefinitionView>,
    globals: Seq<(String, String)>,
) -> Map<Seq<char>, MacroDefinitionView>
    decreases globals.len(),
{
    if globals.len() == 0 {
        base
    } else {
        with_globals(base, globals.drop_last()).insert(
            globals.last().0@,
            MacroDefinitionView::Text(globals.last().1@),
        )
    }
}

} // verus!
