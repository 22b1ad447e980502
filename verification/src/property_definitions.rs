//! Definitions of CSS properties and of the value types their syntax refers to, and how the
//! syntax of a shorthand property tells which longhands its values set.
use vstd::prelude::*;
use crate::css_value::{lemma_values_view, lemma_values_view_push, value_view, values_view, CssValue, CssValueView};
use crate::definition_files::{
    compiles, files_view, lemma_index_shorthands, longhands_found, parse_property_file, parse_syntax_file,
    property_components, property_file, syntax_components, syntax_file, PropertyEntry, SyntaxEntry,
};
use crate::shorthands::{
    index_of_key, keys, lemma_index_of_key, resolves_property, shorthands_opt_view, shorthands_within, spec_insert,
    Multiplier, Shorthand, Shorthands, ShorthandsView,
};
use crate::syntax::{component_view, components_view, copy_components, lemma_components_view, lemma_components_view_push, multiplier_of, strings_view, ComponentView, GroupCombinators, SyntaxComponent, SyntaxComponentMultiplier};
use crate::syntax_parser::{lemma_view_with_multiplier, view_with_multiplier};
use crate::syntax_matcher::{tree_matches, view_multiplier, CssSyntaxTree};
use crate::text::{chars_eq, chars_of};

verus! {

/// A CSS property definition including its type and initial value and optional expanded
/// values if it's a shorthand property
pub struct PropertyDefinition {
    /// Name of the property (ie: color, background etc)
    pub name: String,
    /// List of expanded (computed) properties if this property is a shorthand property
    pub computed: Vec<String>,
    /// Syntax tree of the property. This is a tree that describes the valid values for this property.
    pub syntax: CssSyntaxTree,
    /// True when the property inherits from parent nodes if not set
    pub inherited: bool,
    /// Initial value of the property, if any
    pub initial_value: Option<CssValue>,
    /// True when this element is resolved
    pub resolved: bool,
    /// Shorthand resolver, used to expand computed values
    pub shorthands: Option<Shorthands>,
}

/// A syntax definition that can be used to resolve a property definition
pub struct SyntaxDefinition {
    /// Actual syntax
    pub syntax: CssSyntaxTree,
    /// True when the element has already been resolved
    pub resolved: bool,
}

/// Defines a list of CSS properties and its syntax. Each list is keyed by name, and a name
/// occurs in it at most once (adding under a name already present replaces its entry).
pub struct CssDefinitions {
    resolved_properties: Vec<(String, PropertyDefinition)>,
    properties: Vec<(String, PropertyDefinition)>,
    syntax: Vec<(String, SyntaxDefinition)>,
}

/// The entries of a list keyed by strings, with the keys as character sequences.
pub open spec fn named<T>(v: Seq<(String, T)>) -> Seq<(Seq<char>, T)> {
    v.map_values(|e: (String, T)| (e.0@, e.1))
}

/// The value stored under `k`, if any.
pub open spec fn lookup<T>(s: Seq<(Seq<char>, T)>, k: Seq<char>) -> Option<T> {
    match index_of_key(s, k, 0) {
        Some(i) => Some(s[i].1),
        None => None,
    }
}

/// The syntax (as component values) of each named definition.
pub open spec fn syntax_table(s: Seq<(Seq<char>, SyntaxDefinition)>) -> Seq<(Seq<char>, Seq<ComponentView>)> {
    s.map_values(|e: (Seq<char>, SyntaxDefinition)| (e.0, e.1.syntax.view_components()))
}

/// The syntax (as component values) of each named property.
pub open spec fn property_table(s: Seq<(Seq<char>, PropertyDefinition)>) -> Seq<(Seq<char>, Seq<ComponentView>)> {
    s.map_values(|e: (Seq<char>, PropertyDefinition)| (e.0, e.1.syntax.view_components()))
}

/// The first index of an entry with key `key`.
pub(crate) fn key_index<T>(entries: &Vec<(String, T)>, key: &str) -> (r: Option<usize>)
    ensures
        match r {
            Some(i) => i < entries@.len() && index_of_key(named(entries@), key@, 0) == Some(i as int),
            None => index_of_key(named(entries@), key@, 0) is None,
        },
{
    let k = chars_of(key);
    let ghost t = named(entries@);
    let mut i: usize = 0;
    while i < entries.len()
        invariant
            i <= entries.len(),
            t == named(entries@),
            k@ == key@,
            index_of_key(t, key@, 0) == index_of_key(t, key@, i as int),
        decreases entries.len() - i,
    {
        assert(t[i as int].0 == entries@[i as int].0@);
        if chars_eq(&chars_of(entries[i].0.as_str()), &k) {
            return Some(i);
        }
        i += 1;
    }
    None
}

/// `index_of_key` looks at keys only, whatever the values are.
pub proof fn lemma_index_of_key_keys<T, U>(a: Seq<(Seq<char>, T)>, b: Seq<(Seq<char>, U)>, k: Seq<char>, i: int)
    requires
        a.len() == b.len(),
        forall|j: int| 0 <= j < a.len() ==> #[trigger] a[j].0 == b[j].0,
    ensures
        index_of_key(a, k, i) == index_of_key(b, k, i),
    decreases a.len() - i,
{
    if 0 <= i < a.len() {
        lemma_index_of_key_keys(a, b, k, i + 1);
    }
}

/// Stores `value` under `key`: the entry with that key is replaced, or one is added at the end.
pub(crate) fn insert_entry<T>(entries: &mut Vec<(String, T)>, key: &str, value: T)
    ensures
        named(final(entries)@) == spec_insert(named(old(entries)@), key@, value),
{
    let ghost t = named(entries@);
    let k = key.to_owned();
    match key_index(entries, key) {
        Some(i) => {
            entries.set(i, (k, value));
            assert(named(entries@) =~= t.update(i as int, (key@, value)));
        },
        None => {
            entries.push((k, value));
            assert(named(entries@) =~= t.push((key@, value)));
        },
    }
}

/// Whether `a` and `b` hold the same characters.
pub(crate) fn str_is(a: &str, b: &String) -> (r: bool)
    ensures
        r == (a@ == b@),
{
    chars_eq(&chars_of(a), &chars_of(b.as_str()))
}

impl PropertyDefinition {
    /// The name of the property.
    pub fn name(&self) -> (r: &str)
        ensures
            r@ == self.name@,
    {
        self.name.as_str()
    }

    /// The longhands that a shorthand property expands to.
    pub fn expanded_properties(&self) -> (r: Vec<String>)
        ensures
            strings_view(r@) == strings_view(self.computed@),
    {
        let mut r: Vec<String> = Vec::new();
        let mut i: usize = 0;
        while i < self.computed.len()
            invariant
                i <= self.computed.len(),
                r@.len() == i,
                forall|j: int| 0 <= j < i ==> (#[trigger] r@[j])@ == self.computed@[j]@,
            decreases self.computed.len() - i,
        {
            let c = self.computed[i].clone();
            r.push(c);
            i += 1;
        }
        assert(strings_view(r@) =~= strings_view(self.computed@));
        r
    }

    /// The syntax tree of the property.
    pub fn syntax(&self) -> (r: &CssSyntaxTree)
        ensures
            r == &self.syntax,
    {
        &self.syntax
    }

    /// Whether the property inherits its value from the parent node.
    pub fn inherited(&self) -> (r: bool)
        ensures
            r == self.inherited,
    {
        self.inherited
    }

    /// Returns true when this definition has an initial value
    pub fn has_initial_value(&self) -> (r: bool)
        ensures
            r == self.initial_value is Some,
    {
        self.initial_value.is_some()
    }

    /// Returns the initial value, or no value when there is none.
    pub fn initial_value(&self) -> (r: CssValue)
        ensures
            r@ == match self.initial_value {
                Some(v) => v@,
                None => CssValueView::NoneValue,
            },
    {
        match &self.initial_value {
            Some(v) => v.copy(),
            None => CssValue::NoneValue,
        }
    }

    /// Matches a list of values against the syntax of the property (see `tree_matches`).
    pub fn matches(&self, input: &[CssValue]) -> (r: bool)
        requires
            self.syntax.components@.len() == 1,
            tree_matches(self.syntax.view_components(), values_view(input@)) is Some,
        ensures
            tree_matches(self.syntax.view_components(), values_view(input@)) == Some(r),
    {
        let mut v: Vec<CssValue> = Vec::new();
        let mut i: usize = 0;
        proof {
            lemma_values_view(input@);
        }
        while i < input.len()
            invariant
                i <= input.len(),
                values_view(input@).len() == input@.len(),
                forall|k: int| 0 <= k < input@.len() ==> values_view(input@)[k] == value_view(#[trigger] input@[k]),
                values_view(v@) == values_view(input@).take(i as int),
            decreases input.len() - i,
        {
            let x = input[i].copy();
            proof {
                lemma_values_view_push(v@, x);
            }
            v.push(x);
            assert(values_view(input@).take(i + 1) =~= values_view(input@).take(i as int).push(value_view(x)));
            i += 1;
        }
        assert(values_view(input@).take(i as int) =~= values_view(input@));
        self.syntax.matches(v)
    }

    /// Checks the values for the expanded properties; every list of values passes.
    pub fn check_expanded_properties(&self, _values: &[CssValue]) -> (r: bool)
        ensures
            r,
    {
        true
    }

    /// A property is a shorthand when it expands to more than one longhand.
    pub fn is_shorthand(&self) -> (r: bool)
        ensures
            r == (self.computed@.len() > 1),
    {
        self.computed.len() > 1
    }
}

impl CssDefinitions {
    /// The resolved properties, by name.
    pub closed spec fn resolved(&self) -> Seq<(Seq<char>, PropertyDefinition)> {
        named(self.resolved_properties@)
    }

    /// The defined properties, by name.
    pub closed spec fn defined(&self) -> Seq<(Seq<char>, PropertyDefinition)> {
        named(self.properties@)
    }

    /// The syntax definitions, by name.
    pub closed spec fn syntaxes(&self) -> Seq<(Seq<char>, SyntaxDefinition)> {
        named(self.syntax@)
    }

    /// Empty definitions.
    pub fn new() -> (d: Self)
        ensures
            d.resolved() == Seq::<(Seq<char>, PropertyDefinition)>::empty(),
            d.defined() == Seq::<(Seq<char>, PropertyDefinition)>::empty(),
            d.syntaxes() == Seq::<(Seq<char>, SyntaxDefinition)>::empty(),
    {
        let d = CssDefinitions { resolved_properties: Vec::new(), properties: Vec::new(), syntax: Vec::new() };
        assert(named(d.resolved_properties@) =~= Seq::<(Seq<char>, PropertyDefinition)>::empty());
        assert(named(d.properties@) =~= Seq::<(Seq<char>, PropertyDefinition)>::empty());
        assert(named(d.syntax@) =~= Seq::<(Seq<char>, SyntaxDefinition)>::empty());
        d
    }

    /// Add a new property definition
    pub fn add_property(&mut self, name: &str, property: PropertyDefinition)
        ensures
            final(self).defined() == spec_insert(old(self).defined(), name@, property),
            final(self).resolved() == old(self).resolved(),
            final(self).syntaxes() == old(self).syntaxes(),
    {
        insert_entry(&mut self.properties, name, property);
    }

    /// Add a new syntax definition
    pub fn add_syntax(&mut self, name: &str, syntax: SyntaxDefinition)
        ensures
            final(self).syntaxes() == spec_insert(old(self).syntaxes(), name@, syntax),
            final(self).resolved() == old(self).resolved(),
            final(self).defined() == old(self).defined(),
    {
        insert_entry(&mut self.syntax, name, syntax);
    }

    /// Find a specific (resolved) property
    pub fn find_property(&self, name: &str) -> (r: Option<&PropertyDefinition>)
        ensures
            match index_of_key(self.resolved(), name@, 0) {
                Some(i) => r == Some(&self.resolved()[i].1),
                None => r is None,
            },
    {
        match key_index(&self.resolved_properties, name) {
            Some(i) => Some(&self.resolved_properties[i].1),
            None => None,
        }
    }

    /// The syntax of each syntax definition, by name.
    pub open spec fn syntax_views(&self) -> Seq<(Seq<char>, Seq<ComponentView>)> {
        syntax_table(self.syntaxes())
    }

    /// The syntax of each defined property, by name.
    pub open spec fn property_views(&self) -> Seq<(Seq<char>, Seq<ComponentView>)> {
        property_table(self.defined())
    }

    /// The syntax of the syntax definition named `name`, if any.
    pub(crate) fn syntax_named(&self, name: &str) -> (r: Option<&CssSyntaxTree>)
        ensures
            match lookup(self.syntax_views(), name@) {
                Some(v) => r is Some && r->0.view_components() == v,
                None => r is None,
            },
    {
        let ghost t = named(self.syntax@);
        proof {
            lemma_index_of_key_keys(syntax_table(t), t, name@, 0);
        }
        match key_index(&self.syntax, name) {
            Some(i) => Some(&self.syntax[i].1.syntax),
            None => None,
        }
    }

    /// The syntax of the defined property named `name`, if any.
    pub(crate) fn property_syntax_named(&self, name: &str) -> (r: Option<&CssSyntaxTree>)
        ensures
            match lookup(self.property_views(), name@) {
                Some(v) => r is Some && r->0.view_components() == v,
                None => r is None,
            },
    {
        let ghost t = named(self.properties@);
        proof {
            lemma_index_of_key_keys(property_table(t), t, name@, 0);
        }
        match key_index(&self.properties, name) {
            Some(i) => Some(&self.properties[i].1.syntax),
            None => None,
        }
    }

    /// The number of defined properties.
    pub(crate) fn property_count(&self) -> (r: usize)
        ensures
            r == self.defined().len(),
    {
        self.properties.len()
    }

    /// The defined property at index `i`.
    pub(crate) fn property_at(&self, i: usize) -> (r: &PropertyDefinition)
        requires
            i < self.defined().len(),
        ensures
            *r == self.defined()[i as int].1,
    {
        &self.properties[i].1
    }

    /// Gives the defined property named `name`, if there is one, the longhands `sh`.
    pub(crate) fn set_property_shorthands(&mut self, name: &str, sh: Shorthands)
        ensures
            match index_of_key(old(self).defined(), name@, 0) {
                Some(j) => final(self).defined() == old(self).defined().update(
                    j,
                    (old(self).defined()[j].0, PropertyDefinition { shorthands: Some(sh), ..old(self).defined()[j].1 }),
                ),
                None => final(self).defined() == old(self).defined(),
            },
            final(self).resolved() == old(self).resolved(),
            final(self).syntaxes() == old(self).syntaxes(),
    {
        let ghost t = named(self.properties@);
        match key_index(&self.properties, name) {
            Some(j) => {
                let mut e = self.properties.remove(j);
                e.1.shorthands = Some(sh);
                self.properties.insert(j, e);
                assert(named(self.properties@) =~= t.update(
                    j as int,
                    (t[j as int].0, PropertyDefinition { shorthands: Some(sh), ..t[j as int].1 }),
                ));
            },
            None => {},
        }
    }

    /// Returns the number of resolved property definitions
    pub fn len(&self) -> (r: usize)
        ensures
            r == self.resolved().len(),
    {
        self.resolved_properties.len()
    }

    /// Returns true when there are no resolved property definitions
    pub fn is_empty(&self) -> (r: bool)
        ensures
            r == (self.resolved().len() == 0),
    {
        self.resolved_properties.len() == 0
    }
}

// ---------------------------------------------------------------------------------------
// Where a longhand sits in the syntax of a shorthand.

/// The path of component indices to the first component (depth first) that names property
/// `prop`: a quoted property (`'prop'`) or a quoted type definition (`<'prop'>`).
pub open spec fn property_path(c: ComponentView, prop: Seq<char>) -> Option<Seq<usize>>
    decreases c, 1int,
{
    match c {
        ComponentView::Property(p, _) => if p == prop {
            Some(Seq::empty())
        } else {
            None
        },
        ComponentView::TypeDefinition(d, quoted, _, _) => if quoted && d == prop {
            Some(Seq::empty())
        } else {
            None
        },
        ComponentView::Group(cs, _, _) => group_property_path(cs, prop, 0),
        _ => None,
    }
}

/// `property_path` in the components of a group from index `i` on.
pub open spec fn group_property_path(cs: Seq<ComponentView>, prop: Seq<char>, i: int) -> Option<Seq<usize>>
    decreases cs, cs.len() - i,
{
    if 0 <= i < cs.len() {
        match property_path(cs[i], prop) {
            Some(p) => Some(seq![i as usize] + p),
            None => group_property_path(cs, prop, i + 1),
        }
    } else {
        None
    }
}

/// The path to property `prop` in the first component of a syntax tree.
pub open spec fn tree_property_path(syntax: Seq<ComponentView>, prop: Seq<char>) -> Option<Seq<usize>> {
    if syntax.len() == 0 {
        None
    } else {
        property_path(syntax[0], prop)
    }
}

impl SyntaxComponent {
    /// Whether the component names property `prop` somewhere (see `property_path`). When it
    /// does, the path to it is added to `path`; otherwise `path` is left as it was.
    pub fn has_property_syntax(&self, prop: &str, path: &mut Vec<usize>) -> (r: bool)
        ensures
            r == property_path(component_view(*self), prop@) is Some,
            r ==> final(path)@ == old(path)@ + property_path(component_view(*self), prop@)->0,
            !r ==> final(path)@ == old(path)@,
        decreases self, 1int,
    {
        match self {
            SyntaxComponent::Property { property, .. } => str_is(prop, property),
            SyntaxComponent::TypeDefinition { definition, quoted, .. } => *quoted && str_is(prop, definition),
            SyntaxComponent::Group { components, .. } => group_has_property_syntax(components, prop, path),
            _ => false,
        }
    }

    /// The multipliers of the component (a component has one).
    pub fn multipliers(&self) -> (r: Vec<SyntaxComponentMultiplier>)
        ensures
            r@ == seq![multiplier_of(*self)],
    {
        vec![self.get_multiplier()]
    }
}

/// `has_property_syntax` over the components of a group, in order.
fn group_has_property_syntax(components: &Vec<SyntaxComponent>, prop: &str, path: &mut Vec<usize>) -> (r: bool)
    ensures
        r == group_property_path(components_view(components@), prop@, 0) is Some,
        r ==> final(path)@ == old(path)@ + group_property_path(components_view(components@), prop@, 0)->0,
        !r ==> final(path)@ == old(path)@,
    decreases components, 0int,
{
    let ghost cs = components_view(components@);
    proof {
        lemma_components_view(components@);
    }
    let mut i: usize = 0;
    while i < components.len()
        invariant
            i <= components.len(),
            cs == components_view(components@),
            cs.len() == components@.len(),
            forall|j: int| 0 <= j < components@.len() ==> cs[j] == component_view(#[trigger] components@[j]),
            path@ == old(path)@,
            group_property_path(cs, prop@, 0) == group_property_path(cs, prop@, i as int),
        decreases components.len() - i,
    {
        assert(decreases_to!(components => components@[i as int]));
        path.push(i);
        let ghost pushed = path@;
        if components[i].has_property_syntax(prop, path) {
            let ghost p = property_path(cs[i as int], prop@)->0;
            assert(path@ == pushed + p);
            assert(path@ =~= old(path)@ + (seq![i] + p));
            return true;
        }
        path.pop();
        assert(path@ =~= old(path)@);
        i += 1;
    }
    false
}

impl CssSyntaxTree {
    /// The longhand `property` with its path in the first component of the tree, when that
    /// component names it.
    pub fn has_property_syntax(&self, property: &str) -> (r: Option<Shorthand>)
        ensures
            match tree_property_path(self.view_components(), property@) {
                Some(p) => r is Some && r->0.name() == property@ && r->0.path() == p,
                None => r is None,
            },
    {
        if self.components.len() == 0 {
            return None;
        }
        proof {
            lemma_components_view(self.components@);
        }
        let mut path: Vec<usize> = Vec::new();
        if self.components[0].has_property_syntax(property, &mut path) {
            assert(path@ =~= Seq::<usize>::empty() + property_path(self.view_components()[0], property@)->0);
            Some(Shorthand::new(property.to_owned(), path))
        } else {
            None
        }
    }
}

// ---------------------------------------------------------------------------------------
// Resolving definitions: replacing the type definitions in a syntax by what they stand for.

/// A property definition as a value.
pub struct PropertyView {
    pub name: Seq<char>,
    pub computed: Seq<Seq<char>>,
    pub syntax: Seq<ComponentView>,
    pub inherited: bool,
    pub initial_value: Option<CssValueView>,
    pub resolved: bool,
    pub shorthands: Option<ShorthandsView>,
}

/// The value of a property definition.
pub open spec fn property_view(p: PropertyDefinition) -> PropertyView {
    PropertyView {
        name: p.name@,
        computed: strings_view(p.computed@),
        syntax: p.syntax.view_components(),
        inherited: p.inherited,
        initial_value: match p.initial_value {
            Some(v) => Some(v@),
            None => None,
        },
        resolved: p.resolved,
        shorthands: shorthands_opt_view(p.shorthands),
    }
}

/// Definitions as values: the resolved properties, the defined properties and the syntax
/// definitions (with whether each is resolved), each by name.
pub struct DefinitionsView {
    pub resolved: Seq<(Seq<char>, PropertyView)>,
    pub properties: Seq<(Seq<char>, PropertyView)>,
    pub syntax: Seq<(Seq<char>, (Seq<ComponentView>, bool))>,
}

/// The values of named property definitions.
pub open spec fn props_view(s: Seq<(Seq<char>, PropertyDefinition)>) -> Seq<(Seq<char>, PropertyView)> {
    s.map_values(|e: (Seq<char>, PropertyDefinition)| (e.0, property_view(e.1)))
}

/// The values of a syntax definition: its syntax and whether it is resolved.
pub open spec fn syntax_def_view(d: SyntaxDefinition) -> (Seq<ComponentView>, bool) {
    (d.syntax.view_components(), d.resolved)
}

/// The values of named syntax definitions.
pub open spec fn syntax_defs_view(s: Seq<(Seq<char>, SyntaxDefinition)>) -> Seq<(Seq<char>, (Seq<ComponentView>, bool))> {
    s.map_values(|e: (Seq<char>, SyntaxDefinition)| (e.0, syntax_def_view(e.1)))
}

impl View for CssDefinitions {
    type V = DefinitionsView;

    open spec fn view(&self) -> DefinitionsView {
        DefinitionsView {
            resolved: props_view(self.resolved()),
            properties: props_view(self.defined()),
            syntax: syntax_defs_view(self.syntaxes()),
        }
    }
}

/// Storing a definition and taking the values commute.
pub(crate) proof fn lemma_props_view_insert(s: Seq<(Seq<char>, PropertyDefinition)>, k: Seq<char>, v: PropertyDefinition)
    ensures
        props_view(spec_insert(s, k, v)) == spec_insert(props_view(s), k, property_view(v)),
        index_of_key(props_view(s), k, 0) == index_of_key(s, k, 0),
{
    lemma_index_of_key_keys(props_view(s), s, k, 0);
    lemma_index_of_key(s, k, 0);
    match index_of_key(s, k, 0) {
        Some(i) => {
            assert(props_view(spec_insert(s, k, v)) =~= props_view(s).update(i, (k, property_view(v))));
        },
        None => {
            assert(props_view(spec_insert(s, k, v)) =~= props_view(s).push((k, property_view(v))));
        },
    }
}

/// Storing a definition and taking the values commute.
pub(crate) proof fn lemma_syntax_defs_view_insert(s: Seq<(Seq<char>, SyntaxDefinition)>, k: Seq<char>, v: SyntaxDefinition)
    ensures
        syntax_defs_view(spec_insert(s, k, v)) == spec_insert(syntax_defs_view(s), k, syntax_def_view(v)),
        index_of_key(syntax_defs_view(s), k, 0) == index_of_key(s, k, 0),
{
    lemma_index_of_key_keys(syntax_defs_view(s), s, k, 0);
    lemma_index_of_key(s, k, 0);
    match index_of_key(s, k, 0) {
        Some(i) => {
            assert(syntax_defs_view(spec_insert(s, k, v)) =~= syntax_defs_view(s).update(i, (k, syntax_def_view(v))));
        },
        None => {
            assert(syntax_defs_view(spec_insert(s, k, v)) =~= syntax_defs_view(s).push((k, syntax_def_view(v))));
        },
    }
}

/// The data types that the syntax matcher knows by itself.
pub open spec fn builtin_data_types() -> Seq<Seq<char>> {
    seq![
        "absolute-size"@, "age"@, "angle"@, "basic-shape"@, "calc-size()"@, "counter-name"@,
        "counter-style-name"@, "custom-ident"@, "dashed-ident"@, "decibel"@, "feature-tag-value"@,
        "flex"@, "frequency"@, "gender"@, "hex-color"@, "id"@, "ident"@, "image-1D"@, "integer"@,
        "length"@, "number"@, "named-color"@, "semitones"@, "system-color"@, "outline-line-style"@,
        "palette-identifier"@, "percentage"@, "relative-size"@, "string"@, "target-name"@, "time"@,
        "timeline-range-name"@, "transform-function"@, "uri"@, "url-set"@, "url-token"@, "x"@, "y"@,
        "color()"@, "attr()"@, "element()"@,
    ]
}

/// Whether `d` is one of the built-in data types.
pub(crate) fn is_builtin_data_type(d: &str) -> (r: bool)
    ensures
        r == builtin_data_types().contains(d@),
{
    let names: Vec<&str> = vec![
        "absolute-size", "age", "angle", "basic-shape", "calc-size()", "counter-name",
        "counter-style-name", "custom-ident", "dashed-ident", "decibel", "feature-tag-value",
        "flex", "frequency", "gender", "hex-color", "id", "ident", "image-1D", "integer",
        "length", "number", "named-color", "semitones", "system-color", "outline-line-style",
        "palette-identifier", "percentage", "relative-size", "string", "target-name", "time",
        "timeline-range-name", "transform-function", "uri", "url-set", "url-token", "x", "y",
        "color()", "attr()", "element()",
    ];
    let ghost b = builtin_data_types();
    assert(names@.map_values(|n: &str| n@) =~= b);
    let k = chars_of(d);
    let mut i: usize = 0;
    while i < names.len()
        invariant
            i <= names.len(),
            names@.map_values(|n: &str| n@) == b,
            b == builtin_data_types(),
            k@ == d@,
            forall|j: int| 0 <= j < i ==> b[j] != d@,
        decreases names.len() - i,
    {
        assert(b[i as int] == names@[i as int]@);
        if chars_eq(&chars_of(names[i]), &k) {
            assert(b[i as int] == d@);
            assert(b.contains(d@));
            return true;
        }
        i += 1;
    }
    false
}

/// `d` with the syntax definitions replaced.
pub open spec fn with_syntax(d: DefinitionsView, syntax: Seq<(Seq<char>, (Seq<ComponentView>, bool))>) -> DefinitionsView {
    DefinitionsView { syntax, ..d }
}

/// `d` with the resolved properties replaced.
pub open spec fn with_resolved(d: DefinitionsView, resolved: Seq<(Seq<char>, PropertyView)>) -> DefinitionsView {
    DefinitionsView { resolved, ..d }
}

/// Resolving component `c` of property `prop` in definitions `d`, following references at
/// most `fuel` deep: the definitions after it and the resolved component. A type definition
/// becomes the group of the (resolved) syntax it names; or else, unless it names `prop`
/// itself, the (resolved) syntax of the property it names, as one component or a group; or
/// else, when it is a built-in data type, it stays. `None` when `fuel` is not enough or the
/// type is unknown.
pub open spec fn resolve_component_within(
    d: DefinitionsView,
    c: ComponentView,
    prop: Seq<char>,
    fuel: nat,
) -> Option<(DefinitionsView, ComponentView)>
    decreases fuel, 0int, c,
{
    match c {
        ComponentView::TypeDefinition(t, _, _, m) => match index_of_key(d.syntax, t, 0) {
            Some(i) => if d.syntax[i].1.1 {
                Some((d, ComponentView::Group(d.syntax[i].1.0, GroupCombinators::Juxtaposition, m)))
            } else if fuel == 0 {
                None
            } else {
                match resolve_syntax_within(d, d.syntax[i].1.0, prop, (fuel - 1) as nat) {
                    Some((d2, cs)) => Some((
                        with_syntax(d2, spec_insert(d2.syntax, t, (cs, true))),
                        ComponentView::Group(cs, GroupCombinators::Juxtaposition, m),
                    )),
                    None => None,
                }
            },
            None => {
                let after = if t == prop {
                    Some(d)
                } else if index_of_key(d.resolved, t, 0) is Some {
                    Some(d)
                } else {
                    match lookup(d.properties, t) {
                        Some(p) => if fuel == 0 {
                            None
                        } else {
                            resolve_property_within(d, p.name, (fuel - 1) as nat)
                        },
                        None => Some(d),
                    }
                };
                match after {
                    None => None,
                    Some(d2) => match (if t == prop { None } else { lookup(d2.resolved, t) }) {
                        Some(p) => if p.syntax.len() == 1 {
                            Some((d2, view_with_multiplier(p.syntax[0], m)))
                        } else {
                            Some((d2, ComponentView::Group(p.syntax, GroupCombinators::Juxtaposition, m)))
                        },
                        None => if builtin_data_types().contains(t) {
                            Some((d2, c))
                        } else {
                            None
                        },
                    },
                }
            },
        },
        ComponentView::Group(cs, k, m) => match resolve_syntax_within(d, cs, prop, fuel) {
            Some((d2, rs)) => Some((d2, ComponentView::Group(rs, k, m))),
            None => None,
        },
        _ => Some((d, c)),
    }
}

/// Resolving components `cs` of property `prop` one after the other.
pub open spec fn resolve_syntax_within(
    d: DefinitionsView,
    cs: Seq<ComponentView>,
    prop: Seq<char>,
    fuel: nat,
) -> Option<(DefinitionsView, Seq<ComponentView>)>
    decreases fuel, 0int, cs,
{
    if cs.len() == 0 {
        Some((d, Seq::empty()))
    } else {
        match resolve_syntax_within(d, cs.subrange(0, cs.len() - 1), prop, fuel) {
            Some((d1, rs)) => match resolve_component_within(d1, cs[cs.len() - 1], prop, fuel) {
                Some((d2, r)) => Some((d2, rs.push(r))),
                None => None,
            },
            None => None,
        }
    }
}

/// Resolving property `name`: nothing when it is resolved already or not defined; otherwise
/// its definition with its syntax resolved is added to the resolved properties.
pub open spec fn resolve_property_within(d: DefinitionsView, name: Seq<char>, fuel: nat) -> Option<DefinitionsView>
    decreases fuel, 1int, Seq::<ComponentView>::empty(),
{
    if index_of_key(d.resolved, name, 0) is Some {
        Some(d)
    } else {
        match lookup(d.properties, name) {
            None => Some(d),
            Some(p) => match resolve_syntax_within(d, p.syntax, name, fuel) {
                Some((d2, cs)) => Some(with_resolved(d2, spec_insert(d2.resolved, name, PropertyView { syntax: cs, resolved: true, ..p }))),
                None => None,
            },
        }
    }
}

/// Resolving the properties `names`, in order.
pub open spec fn resolve_all_within(d: DefinitionsView, names: Seq<Seq<char>>, fuel: nat) -> Option<DefinitionsView>
    decreases names.len(),
{
    if names.len() == 0 {
        Some(d)
    } else {
        match resolve_all_within(d, names.drop_last(), fuel) {
            Some(d1) => resolve_property_within(d1, names.last(), fuel),
            None => None,
        }
    }
}

/// `a` comes before `b` in the order of strings (character by character).
pub open spec fn chars_less(a: Seq<char>, b: Seq<char>) -> bool
    decreases a.len(),
{
    if a.len() == 0 {
        b.len() > 0
    } else if b.len() == 0 {
        false
    } else if a[0] != b[0] {
        a[0] < b[0]
    } else {
        chars_less(a.drop_first(), b.drop_first())
    }
}

/// `x` inserted into `s` before the first element that comes after it.
pub open spec fn insert_sorted(s: Seq<Seq<char>>, x: Seq<char>) -> Seq<Seq<char>>
    decreases s.len(),
{
    if s.len() == 0 {
        seq![x]
    } else if chars_less(x, s[0]) {
        seq![x] + s
    } else {
        seq![s[0]] + insert_sorted(s.drop_first(), x)
    }
}

/// The strings of `s` in order.
pub open spec fn sort_names(s: Seq<Seq<char>>) -> Seq<Seq<char>>
    decreases s.len(),
{
    if s.len() == 0 {
        Seq::empty()
    } else {
        insert_sorted(sort_names(s.drop_last()), s.last())
    }
}

/// The names of the defined properties, in order.
pub open spec fn sorted_property_names(d: DefinitionsView) -> Seq<Seq<char>> {
    sort_names(d.properties.map_values(|e: (Seq<char>, PropertyView)| e.0))
}

/// Resolving all defined properties, in the order of their names, ends.
pub open spec fn resolve_ends(d: DefinitionsView) -> bool {
    exists|f: nat| resolve_all_within(d, sorted_property_names(d), f) is Some
}

/// The definitions after resolving all defined properties in the order of their names.
pub open spec fn resolve_all(d: DefinitionsView) -> DefinitionsView {
    resolve_all_within(d, sorted_property_names(d), choose|f: nat| resolve_all_within(d, sorted_property_names(d), f) is Some)->0
}

/// Resolving component `c` of property `prop` ends.
pub open spec fn resolve_component_ends(d: DefinitionsView, c: ComponentView, prop: Seq<char>) -> bool {
    exists|f: nat| resolve_component_within(d, c, prop, f) is Some
}

/// The definitions after resolving component `c` of property `prop`, and the component.
pub open spec fn resolved_component(d: DefinitionsView, c: ComponentView, prop: Seq<char>) -> (DefinitionsView, ComponentView) {
    resolve_component_within(d, c, prop, choose|f: nat| resolve_component_within(d, c, prop, f) is Some)->0
}

/// If resolving some components ends, resolving each of their prefixes ends.
proof fn lemma_resolve_syntax_prefix(d: DefinitionsView, cs: Seq<ComponentView>, prop: Seq<char>, fuel: nat, k: int)
    requires
        resolve_syntax_within(d, cs, prop, fuel) is Some,
        0 <= k <= cs.len(),
    ensures
        resolve_syntax_within(d, cs.subrange(0, k), prop, fuel) is Some,
    decreases cs.len(),
{
    if k == cs.len() {
        assert(cs.subrange(0, k) =~= cs);
    } else {
        let c1 = cs.subrange(0, cs.len() - 1);
        lemma_resolve_syntax_prefix(d, c1, prop, fuel, k);
        assert(c1.subrange(0, k) =~= cs.subrange(0, k));
    }
}

/// If resolving some properties ends, resolving each of their prefixes ends.
proof fn lemma_resolve_all_prefix(d: DefinitionsView, names: Seq<Seq<char>>, fuel: nat, k: int)
    requires
        resolve_all_within(d, names, fuel) is Some,
        0 <= k <= names.len(),
    ensures
        resolve_all_within(d, names.take(k), fuel) is Some,
    decreases names.len(),
{
    if k == names.len() {
        assert(names.take(k) =~= names);
    } else {
        let n1 = names.drop_last();
        lemma_resolve_all_prefix(d, n1, fuel, k);
        assert(n1.take(k) =~= names.take(k));
    }
}

/// `insert_sorted` puts `x` before the first element that comes after it.
pub(crate) proof fn lemma_insert_sorted_at(s: Seq<Seq<char>>, x: Seq<char>, p: int)
    requires
        0 <= p <= s.len(),
        forall|j: int| 0 <= j < p ==> !chars_less(x, #[trigger] s[j]),
        p < s.len() ==> chars_less(x, s[p]),
    ensures
        insert_sorted(s, x) == s.insert(p, x),
    decreases s.len(),
{
    if s.len() == 0 {
        assert(s.insert(p, x) =~= seq![x]);
    } else if p == 0 {
        assert(s.insert(0, x) =~= seq![x] + s);
    } else {
        let t = s.drop_first();
        assert forall|j: int| 0 <= j < p - 1 implies !chars_less(x, #[trigger] t[j]) by {
            assert(t[j] == s[j + 1]);
        }
        assert(!chars_less(x, s[0]));
        lemma_insert_sorted_at(t, x, p - 1);
        assert(seq![s[0]] + t.insert(p - 1, x) =~= s.insert(p, x));
    }
}

/// Whether `a` comes before `b` in the order of strings.
pub(crate) fn less_than(a: &Vec<char>, b: &Vec<char>) -> (r: bool)
    ensures
        r == chars_less(a@, b@),
{
    let mut i: usize = 0;
    assert(a@.skip(0) =~= a@);
    assert(b@.skip(0) =~= b@);
    while i < a.len() && i < b.len()
        invariant
            i <= a.len(),
            i <= b.len(),
            chars_less(a@, b@) == chars_less(a@.skip(i as int), b@.skip(i as int)),
        decreases a.len() - i,
    {
        let x = a[i];
        let y = b[i];
        if x != y {
            assert(a@.skip(i as int)[0] == x && b@.skip(i as int)[0] == y);
            return x < y;
        }
        assert(a@.skip(i as int).drop_first() =~= a@.skip(i + 1));
        assert(b@.skip(i as int).drop_first() =~= b@.skip(i + 1));
        i += 1;
    }
    assert(a@.skip(i as int).len() == a.len() - i);
    assert(b@.skip(i as int).len() == b.len() - i);
    i == a.len() && i < b.len()
}

/// A copy of each string.
pub(crate) fn copy_strings(v: &Vec<String>) -> (r: Vec<String>)
    ensures
        strings_view(r@) == strings_view(v@),
{
    let mut r: Vec<String> = Vec::new();
    let mut i: usize = 0;
    while i < v.len()
        invariant
            i <= v.len(),
            r@.len() == i,
            forall|j: int| 0 <= j < i ==> (#[trigger] r@[j])@ == v@[j]@,
        decreases v.len() - i,
    {
        r.push(v[i].clone());
        i += 1;
    }
    assert(strings_view(r@) =~= strings_view(v@));
    r
}

/// The keys of `entries`, in order of the strings.
pub(crate) fn sorted_keys<T>(entries: &Vec<(String, T)>) -> (r: Vec<String>)
    ensures
        strings_view(r@) == sort_names(keys(named(entries@))),
{
    let ghost ks = keys(named(entries@));
    let mut r: Vec<String> = Vec::new();
    let mut i: usize = 0;
    assert(ks.take(0) =~= Seq::<Seq<char>>::empty());
    while i < entries.len()
        invariant
            i <= entries.len(),
            ks == keys(named(entries@)),
            ks.len() == entries.len(),
            strings_view(r@) == sort_names(ks.take(i as int)),
        decreases entries.len() - i,
    {
        let x = entries[i].0.clone();
        assert(ks[i as int] == x@);
        let xc = chars_of(x.as_str());
        let mut p: usize = 0;
        let ghost rv = strings_view(r@);
        while p < r.len()
            invariant
                p <= r.len(),
                rv == strings_view(r@),
                xc@ == x@,
                forall|j: int| 0 <= j < p ==> !chars_less(x@, #[trigger] rv[j]),
            ensures
                p <= r.len(),
                forall|j: int| 0 <= j < p ==> !chars_less(x@, #[trigger] rv[j]),
                p < r.len() ==> chars_less(x@, rv[p as int]),
            decreases r.len() - p,
        {
            if less_than(&xc, &chars_of(r[p].as_str())) {
                break;
            }
            p += 1;
        }
        proof {
            lemma_insert_sorted_at(rv, x@, p as int);
            assert(ks.take(i + 1).drop_last() =~= ks.take(i as int));
        }
        r.insert(p, x);
        assert(strings_view(r@) =~= rv.insert(p as int, x@));
        i += 1;
    }
    assert(ks.take(i as int) =~= ks);
    r
}

impl CssDefinitions {
    /// The names of the defined properties, in order.
    fn sorted_names(&self) -> (r: Vec<String>)
        ensures
            strings_view(r@) == sorted_property_names(self@),
    {
        assert(keys(named(self.properties@)) =~= self@.properties.map_values(|e: (Seq<char>, PropertyView)| e.0));
        sorted_keys(&self.properties)
    }

    /// Resolves all defined properties, in the order of their names (see `resolve_all`).
    pub fn resolve(&mut self)
        requires
            resolve_ends(old(self)@),
        ensures
            final(self)@ == resolve_all(old(self)@),
            final(self)@.properties == old(self)@.properties,
            forall|k: Seq<char>| has_key(old(self)@.properties, k) ==> #[trigger] has_key(final(self)@.resolved, k),
            forall|k: Seq<char>| has_key(old(self)@.resolved, k) ==> #[trigger] lookup(final(self)@.resolved, k) == lookup(old(self)@.resolved, k),
            forall|k: Seq<char>|
                #[trigger] has_key(final(self)@.resolved, k) && !has_key(old(self)@.resolved, k) ==> lookup(final(self)@.resolved, k)->0.resolved,
    {
        proof { law_resolve_resolves_every_property(self@); }
        let ghost d0 = self@;
        let ghost f = choose|f: nat| resolve_all_within(d0, sorted_property_names(d0), f) is Some;
        let names = self.sorted_names();
        let ghost ns = strings_view(names@);
        assert(ns.take(0) =~= Seq::<Seq<char>>::empty());
        let mut i: usize = 0;
        while i < names.len()
            invariant
                i <= names.len(),
                ns == strings_view(names@),
                ns == sorted_property_names(d0),
                resolve_all_within(d0, ns, f) is Some,
                resolve_all_within(d0, ns.take(i as int), f) == Some(self@),
            decreases names.len() - i,
        {
            proof {
                lemma_resolve_all_prefix(d0, ns, f, i + 1);
                assert(ns.take(i + 1).drop_last() =~= ns.take(i as int));
            }
            self.resolve_property(names[i].as_str(), Ghost(f));
            i += 1;
        }
        assert(ns.take(i as int) =~= ns);
    }

    /// Resolves property `name` (see `resolve_property_within`).
    fn resolve_property(&mut self, name: &str, Ghost(fuel): Ghost<nat>)
        requires
            resolve_property_within(old(self)@, name@, fuel) is Some,
        ensures
            final(self)@ == resolve_property_within(old(self)@, name@, fuel)->0,
            final(self).defined() == old(self).defined(),
        decreases fuel, 1int, Seq::<ComponentView>::empty(),
    {
        proof {
            lemma_index_of_key_keys(props_view(self.resolved()), self.resolved(), name@, 0);
            lemma_index_of_key_keys(props_view(self.defined()), self.defined(), name@, 0);
        }
        if key_index(&self.resolved_properties, name).is_some() {
            return;
        }
        let j = match key_index(&self.properties, name) {
            Some(j) => j,
            None => {
                return;
            },
        };
        proof {
            lemma_components_view(self.properties@[j as int].1.syntax.components@);
        }
        let comps = copy_components(&self.properties[j].1.syntax.components);
        let rs = self.resolve_syntax(&comps, name, Ghost(fuel));
        let p = &self.properties[j].1;
        let initial_value = match &p.initial_value {
            Some(v) => Some(v.copy()),
            None => None,
        };
        let shorthands = match &p.shorthands {
            Some(sh) => Some(sh.copy()),
            None => None,
        };
        let element = PropertyDefinition {
            name: p.name.clone(),
            computed: copy_strings(&p.computed),
            syntax: CssSyntaxTree::new(rs),
            inherited: p.inherited,
            initial_value,
            resolved: true,
            shorthands,
        };
        let ghost before = self.resolved();
        insert_entry(&mut self.resolved_properties, name, element);
        proof {
            lemma_props_view_insert(before, name@, element);
        }
    }

    /// Resolves the components of property `prop_name` one after the other.
    fn resolve_syntax(&mut self, components: &Vec<SyntaxComponent>, prop_name: &str, Ghost(fuel): Ghost<nat>) -> (r: Vec<SyntaxComponent>)
        requires
            resolve_syntax_within(old(self)@, components_view(components@), prop_name@, fuel) is Some,
        ensures
            (final(self)@, components_view(r@)) == resolve_syntax_within(old(self)@, components_view(components@), prop_name@, fuel)->0,
            final(self).defined() == old(self).defined(),
        decreases fuel, 0int, components,
    {
        let ghost d0 = self@;
        let ghost cs = components_view(components@);
        proof {
            lemma_components_view(components@);
            assert(cs.subrange(0, 0) =~= Seq::<ComponentView>::empty());
            assert(components_view(Seq::<SyntaxComponent>::empty()) =~= Seq::<ComponentView>::empty());
        }
        let mut r: Vec<SyntaxComponent> = Vec::new();
        let mut i: usize = 0;
        while i < components.len()
            invariant
                i <= components.len(),
                d0 == old(self)@,
                cs == components_view(components@),
                cs.len() == components@.len(),
                forall|k: int| 0 <= k < components@.len() ==> cs[k] == component_view(#[trigger] components@[k]),
                resolve_syntax_within(d0, cs, prop_name@, fuel) is Some,
                resolve_syntax_within(d0, cs.subrange(0, i as int), prop_name@, fuel) == Some((self@, components_view(r@))),
                self.defined() == old(self).defined(),
            decreases components.len() - i,
        {
            proof {
                lemma_resolve_syntax_prefix(d0, cs, prop_name@, fuel, i + 1);
                assert(cs.subrange(0, i + 1).subrange(0, i as int) =~= cs.subrange(0, i as int));
                assert(cs.subrange(0, i + 1)[i as int] == cs[i as int]);
            }
            assert(decreases_to!(components => components@[i as int]));
            let c = self.resolve_component_fueled(&components[i], prop_name, Ghost(fuel));
            proof {
                lemma_components_view_push(r@, c);
            }
            r.push(c);
            i += 1;
        }
        assert(cs.subrange(0, i as int) =~= cs);
        r
    }

    /// Resolves component `component` of property `prop_name` (see `resolved_component`),
    /// adding the syntax definitions and properties it needs to the resolved ones.
    pub fn resolve_component(&mut self, component: &SyntaxComponent, prop_name: &str) -> (r: SyntaxComponent)
        requires
            resolve_component_ends(old(self)@, component_view(*component), prop_name@),
        ensures
            (final(self)@, component_view(r)) == resolved_component(old(self)@, component_view(*component), prop_name@),
    {
        let ghost f = choose|f: nat| resolve_component_within(self@, component_view(*component), prop_name@, f) is Some;
        self.resolve_component_fueled(component, prop_name, Ghost(f))
    }

    fn resolve_component_fueled(&mut self, component: &SyntaxComponent, prop_name: &str, Ghost(fuel): Ghost<nat>) -> (r: SyntaxComponent)
        requires
            resolve_component_within(old(self)@, component_view(*component), prop_name@, fuel) is Some,
        ensures
            (final(self)@, component_view(r)) == resolve_component_within(old(self)@, component_view(*component), prop_name@, fuel)->0,
            final(self).defined() == old(self).defined(),
        decreases fuel, 0int, component,
    {
        match component {
            SyntaxComponent::TypeDefinition { definition, multiplier, .. } => {
                proof {
                    lemma_index_of_key_keys(syntax_defs_view(self.syntaxes()), self.syntaxes(), definition@, 0);
                    lemma_index_of_key_keys(props_view(self.resolved()), self.resolved(), definition@, 0);
                    lemma_index_of_key_keys(props_view(self.defined()), self.defined(), definition@, 0);
                }
                if let Some(i) = key_index(&self.syntax, definition.as_str()) {
                    if self.syntax[i].1.resolved {
                        let cs = copy_components(&self.syntax[i].1.syntax.components);
                        return SyntaxComponent::Group { components: cs, combinator: GroupCombinators::Juxtaposition, multiplier: *multiplier };
                    }
                    let cs = copy_components(&self.syntax[i].1.syntax.components);
                    let rs = self.resolve_syntax(&cs, prop_name, Ghost((fuel - 1) as nat));
                    let out = copy_components(&rs);
                    let ghost before = self.syntaxes();
                    let def = SyntaxDefinition { syntax: CssSyntaxTree::new(rs), resolved: true };
                    insert_entry(&mut self.syntax, definition.as_str(), def);
                    proof {
                        lemma_syntax_defs_view_insert(before, definition@, def);
                    }
                    return SyntaxComponent::Group { components: out, combinator: GroupCombinators::Juxtaposition, multiplier: *multiplier };
                }
                let same = str_is(prop_name, definition);
                if !same {
                    if key_index(&self.resolved_properties, definition.as_str()).is_none() {
                        if let Some(j) = key_index(&self.properties, definition.as_str()) {
                            let name = self.properties[j].1.name.clone();
                            self.resolve_property(name.as_str(), Ghost((fuel - 1) as nat));
                        }
                    }
                    proof {
                        lemma_index_of_key_keys(props_view(self.resolved()), self.resolved(), definition@, 0);
                    }
                    if let Some(k) = key_index(&self.resolved_properties, definition.as_str()) {
                        proof {
                            lemma_components_view(self.resolved_properties@[k as int].1.syntax.components@);
                        }
                        if self.resolved_properties[k].1.syntax.components.len() == 1 {
                            let mut c = self.resolved_properties[k].1.syntax.components[0].copy();
                            let ghost c0 = c;
                            c.update_multiplier(*multiplier);
                            proof {
                                lemma_view_with_multiplier(c0, *multiplier);
                            }
                            return c;
                        }
                        let cs = copy_components(&self.resolved_properties[k].1.syntax.components);
                        return SyntaxComponent::Group { components: cs, combinator: GroupCombinators::Juxtaposition, multiplier: *multiplier };
                    }
                }
                if is_builtin_data_type(definition.as_str()) {
                    return component.copy();
                }
                proof {
                    assert(false);
                }
                component.copy()
            },
            SyntaxComponent::Group { components, combinator, multiplier } => {
                let rs = self.resolve_syntax(components, prop_name, Ghost(fuel));
                SyntaxComponent::Group { components: rs, combinator: *combinator, multiplier: *multiplier }
            },
            _ => component.copy(),
        }
    }
}

// ---------------------------------------------------------------------------------------
// What resolving keeps.

/// `k` is a key of `s`.
pub open spec fn has_key<T>(s: Seq<(Seq<char>, T)>, k: Seq<char>) -> bool {
    index_of_key(s, k, 0) is Some
}

/// Storing under `n` keeps every key and adds `n`.
pub(crate) proof fn lemma_insert_keys<T>(s: Seq<(Seq<char>, T)>, n: Seq<char>, v: T, k: Seq<char>)
    ensures
        has_key(spec_insert(s, n, v), k) == (has_key(s, k) || k == n),
{
    lemma_index_of_key(s, n, 0);
    lemma_index_of_key(s, k, 0);
    let t = spec_insert(s, n, v);
    lemma_index_of_key(t, k, 0);
    match index_of_key(s, n, 0) {
        Some(j) => {
            if has_key(s, k) {
                let m = index_of_key(s, k, 0)->0;
                assert(t[m].0 == k);
            }
            if k == n {
                assert(t[j].0 == k);
            }
            if has_key(t, k) {
                let m = index_of_key(t, k, 0)->0;
                assert(s[m].0 == t[m].0);
            }
        },
        None => {
            if has_key(s, k) {
                let m = index_of_key(s, k, 0)->0;
                assert(t[m].0 == k);
            }
            if k == n {
                assert(t[s.len() as int].0 == k);
            }
            if has_key(t, k) {
                let m = index_of_key(t, k, 0)->0;
                if m < s.len() {
                    assert(s[m].0 == t[m].0);
                }
            }
        },
    }
}

/// `d2` has the properties of `d`; every property resolved in `d` is resolved in `d2`, with
/// the same definition; and every property resolved in `d2` but not in `d` is marked
/// resolved.
pub open spec fn keeps(d: DefinitionsView, d2: DefinitionsView) -> bool {
    &&& d2.properties == d.properties
    &&& forall|k: Seq<char>| has_key(d.resolved, k) ==> #[trigger] has_key(d2.resolved, k)
    &&& forall|k: Seq<char>| has_key(d.resolved, k) ==> #[trigger] lookup(d2.resolved, k) == lookup(d.resolved, k)
    &&& forall|k: Seq<char>| #[trigger] has_key(d2.resolved, k) && !has_key(d.resolved, k) ==> lookup(d2.resolved, k)->0.resolved
}

proof fn lemma_component_keeps(d: DefinitionsView, c: ComponentView, prop: Seq<char>, fuel: nat)
    requires
        resolve_component_within(d, c, prop, fuel) is Some,
    ensures
        keeps(d, (resolve_component_within(d, c, prop, fuel)->0).0),
    decreases fuel, 0int, c,
{
    match c {
        ComponentView::TypeDefinition(t, _, _, m) => match index_of_key(d.syntax, t, 0) {
            Some(i) => {
                if !d.syntax[i].1.1 {
                    lemma_syntax_keeps(d, d.syntax[i].1.0, prop, (fuel - 1) as nat);
                }
            },
            None => {
                if t != prop && !has_key(d.resolved, t) {
                    if let Some(p) = lookup(d.properties, t) {
                        lemma_property_keeps(d, p.name, (fuel - 1) as nat);
                    }
                }
            },
        },
        ComponentView::Group(cs, _, _) => {
            lemma_syntax_keeps(d, cs, prop, fuel);
        },
        _ => {},
    }
}

proof fn lemma_syntax_keeps(d: DefinitionsView, cs: Seq<ComponentView>, prop: Seq<char>, fuel: nat)
    requires
        resolve_syntax_within(d, cs, prop, fuel) is Some,
    ensures
        keeps(d, (resolve_syntax_within(d, cs, prop, fuel)->0).0),
    decreases fuel, 0int, cs,
{
    if cs.len() > 0 {
        let c1 = cs.subrange(0, cs.len() - 1);
        lemma_syntax_keeps(d, c1, prop, fuel);
        let d1 = (resolve_syntax_within(d, c1, prop, fuel)->0).0;
        lemma_component_keeps(d1, cs[cs.len() - 1], prop, fuel);
    }
}

proof fn lemma_property_keeps(d: DefinitionsView, name: Seq<char>, fuel: nat)
    requires
        resolve_property_within(d, name, fuel) is Some,
    ensures
        keeps(d, resolve_property_within(d, name, fuel)->0),
        has_key(d.properties, name) ==> has_key(resolve_property_within(d, name, fuel)->0.resolved, name),
    decreases fuel, 1int, Seq::<ComponentView>::empty(),
{
    if !has_key(d.resolved, name) {
        if let Some(p) = lookup(d.properties, name) {
            lemma_syntax_keeps(d, p.syntax, name, fuel);
            let (d2, cs) = resolve_syntax_within(d, p.syntax, name, fuel)->0;
            let np = PropertyView { syntax: cs, resolved: true, ..p };
            let r3 = spec_insert(d2.resolved, name, np);
            assert forall|k: Seq<char>| has_key(d.resolved, k) implies #[trigger] has_key(r3, k) by {
                lemma_insert_keys(d2.resolved, name, np, k);
            }
            assert forall|k: Seq<char>| has_key(d.resolved, k) implies #[trigger] lookup(r3, k) == lookup(d.resolved, k) by {
                crate::css_definitions::lemma_lookup_insert(d2.resolved, name, np, k);
            }
            assert forall|k: Seq<char>| #[trigger] has_key(r3, k) && !has_key(d.resolved, k) implies lookup(r3, k)->0.resolved by {
                crate::css_definitions::lemma_lookup_insert(d2.resolved, name, np, k);
                lemma_insert_keys(d2.resolved, name, np, k);
            }
            lemma_insert_keys(d2.resolved, name, np, name);
        }
    }
}

proof fn lemma_all_keeps(d: DefinitionsView, names: Seq<Seq<char>>, fuel: nat)
    requires
        resolve_all_within(d, names, fuel) is Some,
    ensures
        keeps(d, resolve_all_within(d, names, fuel)->0),
        forall|k: Seq<char>| names.contains(k) && has_key(d.properties, k) ==> #[trigger] has_key(resolve_all_within(d, names, fuel)->0.resolved, k),
    decreases names.len(),
{
    if names.len() > 0 {
        let n1 = names.drop_last();
        lemma_all_keeps(d, n1, fuel);
        let d1 = resolve_all_within(d, n1, fuel)->0;
        lemma_property_keeps(d1, names.last(), fuel);
        let d2 = resolve_all_within(d, names, fuel)->0;
        assert forall|k: Seq<char>| names.contains(k) && has_key(d.properties, k) implies #[trigger] has_key(d2.resolved, k) by {
            let j = choose|j: int| 0 <= j < names.len() && names[j] == k;
            if j < names.len() - 1 {
                assert(n1[j] == k);
                assert(n1.contains(k));
            }
        }
    }
}

/// The sorted names hold every name.
pub(crate) proof fn lemma_sort_names_contains(s: Seq<Seq<char>>, k: Seq<char>)
    requires
        s.contains(k),
    ensures
        sort_names(s).contains(k),
    decreases s.len(),
{
    let s1 = s.drop_last();
    if s.last() == k {
        lemma_insert_sorted_contains(sort_names(s1), k, k);
    } else {
        let j = choose|j: int| 0 <= j < s.len() && s[j] == k;
        assert(s1[j] == k);
        lemma_sort_names_contains(s1, k);
        lemma_insert_sorted_contains(sort_names(s1), s.last(), k);
    }
}

/// Inserting keeps every element and adds the new one.
proof fn lemma_insert_sorted_contains(s: Seq<Seq<char>>, x: Seq<char>, k: Seq<char>)
    requires
        s.contains(k) || k == x,
    ensures
        insert_sorted(s, x).contains(k),
    decreases s.len(),
{
    let r = insert_sorted(s, x);
    if s.len() == 0 {
        assert(r[0] == x);
    } else if chars_less(x, s[0]) {
        if k == x {
            assert(r[0] == k);
        } else {
            let j = choose|j: int| 0 <= j < s.len() && s[j] == k;
            assert(r[j + 1] == k);
        }
    } else if s[0] == k {
        assert(r[0] == k);
    } else {
        let t = s.drop_first();
        if k != x {
            let j = choose|j: int| 0 <= j < s.len() && s[j] == k;
            assert(t[j - 1] == k);
        }
        lemma_insert_sorted_contains(t, x, k);
        let q = insert_sorted(t, x);
        let j = choose|j: int| 0 <= j < q.len() && q[j] == k;
        assert(r[j + 1] == k);
    }
}

/// Law: after `resolve`, every defined property is among the resolved ones; a property
/// resolved before keeps its resolved definition (it is not resolved again); every property
/// resolved by it is marked resolved; and the defined properties are unchanged.
pub proof fn law_resolve_resolves_every_property(d: DefinitionsView)
    requires
        resolve_ends(d),
    ensures
        resolve_all(d).properties == d.properties,
        forall|k: Seq<char>| has_key(d.properties, k) ==> #[trigger] has_key(resolve_all(d).resolved, k),
        forall|k: Seq<char>| has_key(d.resolved, k) ==> #[trigger] lookup(resolve_all(d).resolved, k) == lookup(d.resolved, k),
        forall|k: Seq<char>|
            #[trigger] has_key(resolve_all(d).resolved, k) && !has_key(d.resolved, k) ==> lookup(resolve_all(d).resolved, k)->0.resolved,
{
    let names = sorted_property_names(d);
    let f = choose|f: nat| resolve_all_within(d, names, f) is Some;
    lemma_all_keeps(d, names, f);
    assert forall|k: Seq<char>| has_key(d.properties, k) implies #[trigger] has_key(resolve_all(d).resolved, k) by {
        let ks = d.properties.map_values(|e: (Seq<char>, PropertyView)| e.0);
        lemma_index_of_key(d.properties, k, 0);
        let j = index_of_key(d.properties, k, 0)->0;
        assert(ks[j] == k);
        lemma_sort_names_contains(ks, k);
    }
}

/// Resolving properties that are each resolved already, or not defined, changes nothing.
proof fn lemma_all_done(d: DefinitionsView, names: Seq<Seq<char>>, fuel: nat)
    requires
        forall|k: Seq<char>| #[trigger] names.contains(k) && has_key(d.properties, k) ==> has_key(d.resolved, k),
    ensures
        resolve_all_within(d, names, fuel) == Some(d),
    decreases names.len(),
{
    if names.len() > 0 {
        let n1 = names.drop_last();
        assert forall|k: Seq<char>| #[trigger] n1.contains(k) && has_key(d.properties, k) implies has_key(d.resolved, k) by {
            let j = choose|j: int| 0 <= j < n1.len() && n1[j] == k;
            assert(names[j] == k);
            assert(names.contains(k));
        }
        lemma_all_done(d, n1, fuel);
        assert(names[names.len() - 1] == names.last());
        assert(names.contains(names.last()));
    }
}

/// Law: resolving a second time changes nothing.
pub proof fn law_resolve_twice_changes_nothing(d: DefinitionsView)
    requires
        resolve_ends(d),
    ensures
        resolve_ends(resolve_all(d)),
        resolve_all(resolve_all(d)) == resolve_all(d),
{
    let names = sorted_property_names(d);
    let f = choose|f: nat| resolve_all_within(d, names, f) is Some;
    lemma_all_keeps(d, names, f);
    let d1 = resolve_all(d);
    assert(sorted_property_names(d1) == names);
    lemma_all_done(d1, names, 0);
    let g = choose|g: nat| resolve_all_within(d1, names, g) is Some;
    lemma_all_done(d1, names, g);
}

// ---------------------------------------------------------------------------------------
// Following references deeper than needed changes nothing.

proof fn lemma_component_more_fuel(d: DefinitionsView, c: ComponentView, prop: Seq<char>, f: nat, g: nat)
    requires
        f <= g,
        resolve_component_within(d, c, prop, f) is Some,
    ensures
        resolve_component_within(d, c, prop, g) == resolve_component_within(d, c, prop, f),
    decreases f, 0int, c,
{
    match c {
        ComponentView::TypeDefinition(t, _, _, m) => match index_of_key(d.syntax, t, 0) {
            Some(i) => {
                if !d.syntax[i].1.1 {
                    lemma_syntax_more_fuel(d, d.syntax[i].1.0, prop, (f - 1) as nat, (g - 1) as nat);
                }
            },
            None => {
                if t != prop && !has_key(d.resolved, t) {
                    if let Some(p) = lookup(d.properties, t) {
                        lemma_property_more_fuel(d, p.name, (f - 1) as nat, (g - 1) as nat);
                    }
                }
            },
        },
        ComponentView::Group(cs, _, _) => {
            lemma_syntax_more_fuel(d, cs, prop, f, g);
        },
        _ => {},
    }
}

proof fn lemma_syntax_more_fuel(d: DefinitionsView, cs: Seq<ComponentView>, prop: Seq<char>, f: nat, g: nat)
    requires
        f <= g,
        resolve_syntax_within(d, cs, prop, f) is Some,
    ensures
        resolve_syntax_within(d, cs, prop, g) == resolve_syntax_within(d, cs, prop, f),
    decreases f, 0int, cs,
{
    if cs.len() > 0 {
        let c1 = cs.subrange(0, cs.len() - 1);
        lemma_syntax_more_fuel(d, c1, prop, f, g);
        let d1 = (resolve_syntax_within(d, c1, prop, f)->0).0;
        lemma_component_more_fuel(d1, cs[cs.len() - 1], prop, f, g);
    }
}

proof fn lemma_property_more_fuel(d: DefinitionsView, name: Seq<char>, f: nat, g: nat)
    requires
        f <= g,
        resolve_property_within(d, name, f) is Some,
    ensures
        resolve_property_within(d, name, g) == resolve_property_within(d, name, f),
    decreases f, 1int, Seq::<ComponentView>::empty(),
{
    if !has_key(d.resolved, name) {
        if let Some(p) = lookup(d.properties, name) {
            lemma_syntax_more_fuel(d, p.syntax, name, f, g);
        }
    }
}

proof fn lemma_all_more_fuel(d: DefinitionsView, names: Seq<Seq<char>>, f: nat, g: nat)
    requires
        f <= g,
        resolve_all_within(d, names, f) is Some,
    ensures
        resolve_all_within(d, names, g) == resolve_all_within(d, names, f),
    decreases names.len(),
{
    if names.len() > 0 {
        lemma_all_more_fuel(d, names.drop_last(), f, g);
        let d1 = resolve_all_within(d, names.drop_last(), f)->0;
        lemma_property_more_fuel(d1, names.last(), f, g);
    }
}

/// Resolving all properties gives the same definitions whatever depth of references is
/// allowed, once it is enough: `resolve_all` does not depend on the depth it picks.
pub proof fn lemma_resolve_all_any_depth(d: DefinitionsView, f: nat)
    requires
        resolve_all_within(d, sorted_property_names(d), f) is Some,
    ensures
        resolve_all(d) == resolve_all_within(d, sorted_property_names(d), f)->0,
{
    let names = sorted_property_names(d);
    let c = choose|c: nat| resolve_all_within(d, names, c) is Some;
    if c <= f {
        lemma_all_more_fuel(d, names, c, f);
    } else {
        lemma_all_more_fuel(d, names, f, c);
    }
}

/// Resolving a component gives the same result whatever depth of references is allowed,
/// once it is enough.
pub proof fn lemma_resolve_component_any_depth(d: DefinitionsView, c: ComponentView, prop: Seq<char>, f: nat)
    requires
        resolve_component_within(d, c, prop, f) is Some,
    ensures
        resolved_component(d, c, prop) == resolve_component_within(d, c, prop, f)->0,
{
    let k = choose|k: nat| resolve_component_within(d, c, prop, k) is Some;
    if k <= f {
        lemma_component_more_fuel(d, c, prop, k, f);
    } else {
        lemma_component_more_fuel(d, c, prop, f, k);
    }
}

// ---------------------------------------------------------------------------------------
// The definition files.

/// The definitions of the syntax file and the property file: the named syntaxes and the
/// properties of the files, with the longhands of each shorthand recorded, and all
/// properties resolved in the order of their names.
pub fn pars_definition_files(syntax: &[SyntaxEntry], properties: &[PropertyEntry]) -> (r: CssDefinitions)
    requires
        forall|i: int| 0 <= i < properties@.len() ==> compiles(#[trigger] properties@[i].syntax@),
        longhands_found(syntax_components(syntax_file(syntax@)), property_file(properties@)),
        resolve_ends(files_view(syntax@, properties@)),
    ensures
        r@ == resolve_all(files_view(syntax@, properties@)),
{
    let syntax_defs = parse_syntax_file(syntax);
    let property_defs = parse_property_file(properties);
    let mut definitions = CssDefinitions { resolved_properties: Vec::new(), properties: property_defs, syntax: syntax_defs };
    let ghost d0 = definitions;
    proof {
        let sf = syntax_file(syntax@);
        let pf = property_file(properties@);
        assert(definitions.syntax_views() =~= syntax_components(sf));
        assert(definitions.property_views() =~= property_components(pf));
        assert forall|i: int| 0 <= i < definitions.defined().len() implies #[trigger] resolves_property(
            &definitions,
            definitions.defined()[i].1,
        ) by {
            assert(props_view(definitions.defined())[i] == pf[i]);
            let f = choose|f: nat|
                shorthands_within(syntax_components(sf), property_components(pf), pf[i].1.computed, pf[i].1.syntax, pf[i].1.name, f) is Some;
            assert(shorthands_within(
                definitions.syntax_views(),
                definitions.property_views(),
                strings_view(definitions.defined()[i].1.computed@),
                definitions.defined()[i].1.syntax.view_components(),
                definitions.defined()[i].1.name@,
                f,
            ) is Some);
        }
    }
    definitions.index_shorthands();
    proof {
        lemma_index_shorthands(&d0, &definitions);
        assert(props_view(definitions.resolved()) =~= Seq::<(Seq<char>, PropertyView)>::empty());
        assert(definitions@ == files_view(syntax@, properties@));
    }
    definitions.resolve();
    definitions
}

} // verus!
