//! Definitions of CSS properties as MDN describes them, with the functions and value types
//! that their syntax refers to, and how the type definitions in a property's syntax are
//! replaced by what they stand for.
use vstd::prelude::*;
use crate::css_value::{CssValue, CssValueView};
use crate::definition_files::{compiled_tree, compiles, entry_property, strings_value, PropertyEntry, SyntaxEntry};
use crate::property_definitions::{
    copy_strings, insert_entry, key_index, lemma_index_of_key_keys, lookup, named, sort_names, sorted_keys,
};
use crate::shorthands::{index_of_key, keys, spec_insert};
use crate::syntax::{
    compile_result, Compiled, CssSyntax, component_view, components_view, copy_components, lemma_components_view, lemma_components_view_push,
    strings_view, ComponentView, GroupCombinators, SyntaxComponent,
};
use crate::syntax_matcher::CssSyntaxTree;
use crate::text::{chars_eq, chars_of};

verus! {

/// A CSS property definition including its type and initial value and optional expanded
/// values if it's a shorthand property
pub struct PropertyDefinition {
    /// Name of the property (ie: color, background etc)
    pub name: String,
    /// List of expanded (computed) properties if this property is a shorthand property
    pub computed: Vec<String>,
    /// Syntax tree of the property. This is a tree that describes the valid values for this property.
    pub syntax: CssSyntaxTree,
    /// True when the property inherits from parent nodes if not set
    pub inherited: bool,
    /// Initial value of the property, if any
    pub initial_value: Option<CssValue>,
    /// URL to MDN documentation for this property
    pub mdn_url: String,
    /// True when this element is resolved
    pub resolved: bool,
}

/// A named syntax.
pub struct SyntaxDefinition {
    /// Name of the syntax definition
    pub name: String,
    /// Actual syntax
    pub syntax: CssSyntaxTree,
    /// True when the element has already been resolved
    pub resolved: bool,
}

/// A CSS function definition.
pub struct FunctionDefinition {
    /// Name of the function
    pub name: String,
    /// Compiled syntax tree
    pub syntax: CssSyntaxTree,
    /// URL to MDN documentation for this function
    pub mdn_url: String,
}

/// A property definition as a value.
pub struct MdnPropertyView {
    pub name: Seq<char>,
    pub computed: Seq<Seq<char>>,
    pub syntax: Seq<ComponentView>,
    pub inherited: bool,
    pub initial_value: Option<CssValueView>,
    pub mdn_url: Seq<char>,
    pub resolved: bool,
}

/// The value of a property definition.
pub open spec fn mdn_property_view(p: PropertyDefinition) -> MdnPropertyView {
    MdnPropertyView {
        name: p.name@,
        computed: strings_view(p.computed@),
        syntax: p.syntax.view_components(),
        inherited: p.inherited,
        initial_value: match p.initial_value {
            Some(v) => Some(v@),
            None => None,
        },
        mdn_url: p.mdn_url@,
        resolved: p.resolved,
    }
}

/// The values of named property definitions.
pub open spec fn mdn_props_view(s: Seq<(Seq<char>, PropertyDefinition)>) -> Seq<(Seq<char>, MdnPropertyView)> {
    s.map_values(|e: (Seq<char>, PropertyDefinition)| (e.0, mdn_property_view(e.1)))
}

/// The syntax of each named syntax definition and whether it is resolved.
pub open spec fn mdn_syntax_view(s: Seq<(Seq<char>, SyntaxDefinition)>) -> Seq<(Seq<char>, (Seq<ComponentView>, bool))> {
    s.map_values(|e: (Seq<char>, SyntaxDefinition)| (e.0, (e.1.syntax.view_components(), e.1.resolved)))
}

impl PropertyDefinition {
    /// A copy of the definition.
    pub fn copy(&self) -> (r: PropertyDefinition)
        ensures
            mdn_property_view(r) == mdn_property_view(*self),
    {
        PropertyDefinition {
            name: self.name.clone(),
            computed: copy_strings(&self.computed),
            syntax: CssSyntaxTree::new(copy_components(&self.syntax.components)),
            inherited: self.inherited,
            initial_value: match &self.initial_value {
                Some(v) => Some(v.copy()),
                None => None,
            },
            mdn_url: self.mdn_url.clone(),
            resolved: self.resolved,
        }
    }

    /// The name of the property.
    pub fn name(self) -> (r: String)
        ensures
            r@ == self.name@,
    {
        self.name
    }

    /// The longhands that a shorthand property expands to.
    pub fn expanded_properties(self) -> (r: Vec<String>)
        ensures
            strings_view(r@) == strings_view(self.computed@),
    {
        self.computed
    }

    /// The syntax tree of the property.
    pub fn syntax(self) -> (r: CssSyntaxTree)
        ensures
            r.view_components() == self.syntax.view_components(),
    {
        self.syntax
    }

    /// Whether the property inherits its value from the parent node.
    pub fn inherited(self) -> (r: bool)
        ensures
            r == self.inherited,
    {
        self.inherited
    }

    /// Returns true when this definition has an initial value
    pub fn has_initial_value(self) -> (r: bool)
        ensures
            r == self.initial_value is Some,
    {
        self.initial_value.is_some()
    }

    /// Returns the initial value, or no value when there is none.
    pub fn initial_value(self) -> (r: CssValue)
        ensures
            r@ == match self.initial_value {
                Some(v) => v@,
                None => CssValueView::NoneValue,
            },
    {
        match self.initial_value {
            Some(v) => v,
            None => CssValue::NoneValue,
        }
    }

    /// Checks the values for the expanded properties; every list of values passes.
    pub fn check_expanded_properties(&self, _values: &[CssValue]) -> (r: bool)
        ensures
            r,
    {
        true
    }
}

/// The defined properties, functions and named syntaxes, each by name.
pub struct CssDefinitions {
    pub properties: Vec<(String, PropertyDefinition)>,
    pub functions: Vec<(String, FunctionDefinition)>,
    pub syntax: Vec<(String, SyntaxDefinition)>,
}

impl CssDefinitions {
    /// The defined properties, as values, by name.
    pub open spec fn props(&self) -> Seq<(Seq<char>, MdnPropertyView)> {
        mdn_props_view(named(self.properties@))
    }

    /// The named syntaxes, as values, by name.
    pub open spec fn syntaxes(&self) -> Seq<(Seq<char>, (Seq<ComponentView>, bool))> {
        mdn_syntax_view(named(self.syntax@))
    }

    /// Empty definitions.
    pub fn new() -> (d: Self)
        ensures
            d.properties@.len() == 0,
            d.functions@.len() == 0,
            d.syntax@.len() == 0,
    {
        CssDefinitions { properties: Vec::new(), functions: Vec::new(), syntax: Vec::new() }
    }

    /// Add a new property definition
    pub fn add_property(&mut self, name: &str, property: PropertyDefinition)
        ensures
            named(final(self).properties@) == spec_insert(named(old(self).properties@), name@, property),
            final(self).functions@ == old(self).functions@,
            final(self).syntax@ == old(self).syntax@,
    {
        insert_entry(&mut self.properties, name, property);
    }

    /// Add a new syntax definition
    pub fn add_syntax(&mut self, name: &str, syntax: SyntaxDefinition)
        ensures
            named(final(self).syntax@) == spec_insert(named(old(self).syntax@), name@, syntax),
            final(self).functions@ == old(self).functions@,
            final(self).properties@ == old(self).properties@,
    {
        insert_entry(&mut self.syntax, name, syntax);
    }

    /// Add a new function definition
    pub fn add_function(&mut self, name: &str, function: FunctionDefinition)
        ensures
            named(final(self).functions@) == spec_insert(named(old(self).functions@), name@, function),
            final(self).syntax@ == old(self).syntax@,
            final(self).properties@ == old(self).properties@,
    {
        insert_entry(&mut self.functions, name, function);
    }

    /// Find a specific property (a copy of its definition)
    pub fn find_property(&self, name: &str) -> (r: Option<PropertyDefinition>)
        ensures
            match lookup(self.props(), name@) {
                Some(p) => r is Some && mdn_property_view(r->0) == p,
                None => r is None,
            },
    {
        proof {
            lemma_index_of_key_keys(self.props(), named(self.properties@), name@, 0);
        }
        match key_index(&self.properties, name) {
            Some(i) => Some(self.properties[i].1.copy()),
            None => None,
        }
    }

    /// Returns the property definitions
    pub fn get_properties(self) -> (r: Vec<(String, PropertyDefinition)>)
        ensures
            r@ == self.properties@,
    {
        self.properties
    }

    /// Returns the number of property definitions
    pub fn len(&self) -> (r: usize)
        ensures
            r == self.properties@.len(),
    {
        self.properties.len()
    }

    /// Returns true when there are no property definitions
    pub fn is_empty(&self) -> (r: bool)
        ensures
            r == (self.properties@.len() == 0),
    {
        self.properties.len() == 0
    }
}

// ---------------------------------------------------------------------------------------
// Resolving the type definitions in the syntax of the properties.

/// The data types that the syntax matcher knows by itself.
pub open spec fn mdn_builtin_data_types() -> Seq<Seq<char>> {
    seq![
        "anchor-element"@, "angle"@, "coord-box"@, "custom-ident"@, "dashed-ident"@,
        "declaration-value"@, "hex-color"@, "inset-area"@, "integer"@, "length"@, "number"@,
        "offset-path"@, "palette-identifier"@, "percentage"@, "resolution"@,
        "single-animation-composition"@, "string"@, "time"@, "try-size"@, "try-tactic"@, "url"@,
        "white-space-trim"@, "x"@, "y"@,
    ]
}

/// Whether `d` is one of the built-in data types.
fn is_mdn_builtin(d: &str) -> (r: bool)
    ensures
        r == mdn_builtin_data_types().contains(d@),
{
    let names: Vec<&str> = vec![
        "anchor-element", "angle", "coord-box", "custom-ident", "dashed-ident",
        "declaration-value", "hex-color", "inset-area", "integer", "length", "number",
        "offset-path", "palette-identifier", "percentage", "resolution",
        "single-animation-composition", "string", "time", "try-size", "try-tactic", "url",
        "white-space-trim", "x", "y",
    ];
    let ghost b = mdn_builtin_data_types();
    assert(names@.map_values(|n: &str| n@) =~= b);
    let k = chars_of(d);
    let mut i: usize = 0;
    while i < names.len()
        invariant
            i <= names.len(),
            names@.map_values(|n: &str| n@) == b,
            b == mdn_builtin_data_types(),
            k@ == d@,
            forall|j: int| 0 <= j < i ==> b[j] != d@,
        decreases names.len() - i,
    {
        assert(b[i as int] == names@[i as int]@);
        if chars_eq(&chars_of(names[i]), &k) {
            assert(b.contains(d@));
            return true;
        }
        i += 1;
    }
    false
}

/// Resolving component `c` of property `prop` against the named syntaxes `syn`, with the
/// property definitions `ps`, following references at most `fuel` deep: the definitions
/// after it and the resolved component. A type definition becomes the group of the syntax
/// it names (resolved as needed, without storing it); or else, unless it names `prop`
/// itself, the syntax of the property it names (resolved as needed), as its single
/// component or as a group; or else, when it is a built-in data type, it stays. `None`
/// when `fuel` is not enough or the type is unknown.
pub open spec fn mdn_component_within(
    syn: Seq<(Seq<char>, (Seq<ComponentView>, bool))>,
    ps: Seq<(Seq<char>, MdnPropertyView)>,
    c: ComponentView,
    prop: Seq<char>,
    fuel: nat,
) -> Option<(Seq<(Seq<char>, MdnPropertyView)>, ComponentView)>
    decreases fuel, 0int, c,
{
    match c {
        ComponentView::TypeDefinition(t, _, _, m) => match lookup(syn, t) {
            Some(se) => if se.1 {
                Some((ps, ComponentView::Group(se.0, GroupCombinators::Juxtaposition, m)))
            } else if fuel == 0 {
                None
            } else {
                match mdn_syntax_within(syn, ps, se.0, prop, (fuel - 1) as nat) {
                    Some((ps2, cs)) => Some((ps2, ComponentView::Group(cs, GroupCombinators::Juxtaposition, m))),
                    None => None,
                }
            },
            None => {
                let via_property = if t == prop {
                    None
                } else {
                    match lookup(ps, t) {
                        Some(pe) => Some(
                            if pe.resolved {
                                Some((ps, pe))
                            } else if fuel == 0 {
                                None
                            } else {
                                mdn_property_within(syn, ps, t, (fuel - 1) as nat)
                            },
                        ),
                        None => None,
                    }
                };
                match via_property {
                    Some(Some((ps2, rp))) => if rp.syntax.len() == 1 {
                        Some((ps2, rp.syntax[0]))
                    } else {
                        Some((ps2, ComponentView::Group(rp.syntax, GroupCombinators::Juxtaposition, m)))
                    },
                    Some(None) => None,
                    None => if mdn_builtin_data_types().contains(t) {
                        Some((ps, c))
                    } else {
                        None
                    },
                }
            },
        },
        ComponentView::Group(cs, k, m) => match mdn_syntax_within(syn, ps, cs, prop, fuel) {
            Some((ps2, rs)) => Some((ps2, ComponentView::Group(rs, k, m))),
            None => None,
        },
        _ => Some((ps, c)),
    }
}

/// Resolving components `cs` of property `prop` one after the other.
pub open spec fn mdn_syntax_within(
    syn: Seq<(Seq<char>, (Seq<ComponentView>, bool))>,
    ps: Seq<(Seq<char>, MdnPropertyView)>,
    cs: Seq<ComponentView>,
    prop: Seq<char>,
    fuel: nat,
) -> Option<(Seq<(Seq<char>, MdnPropertyView)>, Seq<ComponentView>)>
    decreases fuel, 0int, cs,
{
    if cs.len() == 0 {
        Some((ps, Seq::empty()))
    } else {
        match mdn_syntax_within(syn, ps, cs.subrange(0, cs.len() - 1), prop, fuel) {
            Some((ps1, rs)) => match mdn_component_within(syn, ps1, cs[cs.len() - 1], prop, fuel) {
                Some((ps2, r)) => Some((ps2, rs.push(r))),
                None => None,
            },
            None => None,
        }
    }
}

/// Resolving property `name` (which must be defined): a resolved definition stays as it
/// is; otherwise its syntax is resolved and the definition stored again, marked resolved.
/// Gives the definitions after it and the (resolved) definition.
pub open spec fn mdn_property_within(
    syn: Seq<(Seq<char>, (Seq<ComponentView>, bool))>,
    ps: Seq<(Seq<char>, MdnPropertyView)>,
    name: Seq<char>,
    fuel: nat,
) -> Option<(Seq<(Seq<char>, MdnPropertyView)>, MdnPropertyView)>
    decreases fuel, 1int, Seq::<ComponentView>::empty(),
{
    match lookup(ps, name) {
        None => None,
        Some(e) => if e.resolved {
            Some((ps, e))
        } else {
            match mdn_syntax_within(syn, ps, e.syntax, name, fuel) {
                Some((ps2, cs)) => {
                    let e2 = MdnPropertyView { syntax: cs, resolved: true, ..e };
                    Some((spec_insert(ps2, name, e2), e2))
                },
                None => None,
            }
        },
    }
}

/// Resolving the properties `names`, in order.
pub open spec fn mdn_all_within(
    syn: Seq<(Seq<char>, (Seq<ComponentView>, bool))>,
    ps: Seq<(Seq<char>, MdnPropertyView)>,
    names: Seq<Seq<char>>,
    fuel: nat,
) -> Option<Seq<(Seq<char>, MdnPropertyView)>>
    decreases names.len(),
{
    if names.len() == 0 {
        Some(ps)
    } else {
        match mdn_all_within(syn, ps, names.drop_last(), fuel) {
            Some(ps1) => match mdn_property_within(syn, ps1, names.last(), fuel) {
                Some((ps2, _)) => Some(ps2),
                None => None,
            },
            None => None,
        }
    }
}

/// Resolving all defined properties, in the order of their names, ends.
pub open spec fn mdn_resolve_ends(d: &CssDefinitions) -> bool {
    exists|f: nat| mdn_all_within(d.syntaxes(), d.props(), sort_names(keys(d.props())), f) is Some
}

/// The property definitions after resolving all of them in the order of their names.
pub open spec fn mdn_resolve_all(d: &CssDefinitions) -> Seq<(Seq<char>, MdnPropertyView)> {
    mdn_all_within(
        d.syntaxes(),
        d.props(),
        sort_names(keys(d.props())),
        choose|f: nat| mdn_all_within(d.syntaxes(), d.props(), sort_names(keys(d.props())), f) is Some,
    )->0
}

proof fn lemma_mdn_syntax_prefix(
    syn: Seq<(Seq<char>, (Seq<ComponentView>, bool))>,
    ps: Seq<(Seq<char>, MdnPropertyView)>,
    cs: Seq<ComponentView>,
    prop: Seq<char>,
    fuel: nat,
    k: int,
)
    requires
        mdn_syntax_within(syn, ps, cs, prop, fuel) is Some,
        0 <= k <= cs.len(),
    ensures
        mdn_syntax_within(syn, ps, cs.subrange(0, k), prop, fuel) is Some,
    decreases cs.len(),
{
    if k == cs.len() {
        assert(cs.subrange(0, k) =~= cs);
    } else {
        let c1 = cs.subrange(0, cs.len() - 1);
        lemma_mdn_syntax_prefix(syn, ps, c1, prop, fuel, k);
        assert(c1.subrange(0, k) =~= cs.subrange(0, k));
    }
}

proof fn lemma_mdn_all_prefix(
    syn: Seq<(Seq<char>, (Seq<ComponentView>, bool))>,
    ps: Seq<(Seq<char>, MdnPropertyView)>,
    names: Seq<Seq<char>>,
    fuel: nat,
    k: int,
)
    requires
        mdn_all_within(syn, ps, names, fuel) is Some,
        0 <= k <= names.len(),
    ensures
        mdn_all_within(syn, ps, names.take(k), fuel) is Some,
    decreases names.len(),
{
    if k == names.len() {
        assert(names.take(k) =~= names);
    } else {
        let n1 = names.drop_last();
        lemma_mdn_all_prefix(syn, ps, n1, fuel, k);
        assert(n1.take(k) =~= names.take(k));
    }
}

/// Storing a definition and taking the values commute.
proof fn lemma_mdn_props_view_insert(s: Seq<(Seq<char>, PropertyDefinition)>, k: Seq<char>, v: PropertyDefinition)
    ensures
        mdn_props_view(spec_insert(s, k, v)) == spec_insert(mdn_props_view(s), k, mdn_property_view(v)),
        index_of_key(mdn_props_view(s), k, 0) == index_of_key(s, k, 0),
{
    lemma_index_of_key_keys(mdn_props_view(s), s, k, 0);
    crate::shorthands::lemma_index_of_key(s, k, 0);
    match index_of_key(s, k, 0) {
        Some(i) => {
            assert(mdn_props_view(spec_insert(s, k, v)) =~= mdn_props_view(s).update(i, (k, mdn_property_view(v))));
        },
        None => {
            assert(mdn_props_view(spec_insert(s, k, v)) =~= mdn_props_view(s).push((k, mdn_property_view(v))));
        },
    }
}

impl CssDefinitions {
    /// Resolves all defined properties, in the order of their names (see `mdn_resolve_all`);
    /// the named syntaxes and functions stay as they are.
    pub fn resolve(&mut self)
        requires
            mdn_resolve_ends(old(self)),
        ensures
            final(self).props() == mdn_resolve_all(old(self)),
            final(self).syntax@ == old(self).syntax@,
            final(self).functions@ == old(self).functions@,
    {
        let ghost syn = self.syntaxes();
        let ghost p0 = self.props();
        let ghost ns0 = sort_names(keys(p0));
        let ghost f = choose|f: nat| mdn_all_within(syn, p0, ns0, f) is Some;
        let names = sorted_keys(&self.properties);
        let ghost ns = strings_view(names@);
        assert(keys(named(self.properties@)) =~= keys(p0));
        assert(ns == ns0);
        assert(ns.take(0) =~= Seq::<Seq<char>>::empty());
        let mut i: usize = 0;
        while i < names.len()
            invariant
                i <= names.len(),
                ns == strings_view(names@),
                syn == self.syntaxes(),
                self.syntax@ == old(self).syntax@,
                self.functions@ == old(self).functions@,
                mdn_all_within(syn, p0, ns, f) is Some,
                mdn_all_within(syn, p0, ns.take(i as int), f) == Some(self.props()),
            decreases names.len() - i,
        {
            proof {
                lemma_mdn_all_prefix(syn, p0, ns, f, i + 1);
                assert(ns.take(i + 1).drop_last() =~= ns.take(i as int));
            }
            self.resolve_property(names[i].as_str(), Ghost(f));
            i += 1;
        }
        assert(ns.take(i as int) =~= ns);
    }

    /// Resolves property `name` (see `mdn_property_within`) and gives its definition.
    fn resolve_property(&mut self, name: &str, Ghost(fuel): Ghost<nat>) -> (r: PropertyDefinition)
        requires
            mdn_property_within(old(self).syntaxes(), old(self).props(), name@, fuel) is Some,
        ensures
            (final(self).props(), mdn_property_view(r)) == mdn_property_within(
                old(self).syntaxes(),
                old(self).props(),
                name@,
                fuel,
            )->0,
            final(self).syntax@ == old(self).syntax@,
            final(self).functions@ == old(self).functions@,
        decreases fuel, 1int, Seq::<ComponentView>::empty(),
    {
        proof {
            lemma_index_of_key_keys(self.props(), named(self.properties@), name@, 0);
        }
        let j = match key_index(&self.properties, name) {
            Some(j) => j,
            None => {
                proof {
                    assert(false);
                }
                return self.properties[0].1.copy();
            },
        };
        let element = self.properties[j].1.copy();
        if element.resolved {
            return element;
        }
        proof {
            lemma_components_view(element.syntax.components@);
        }
        let rs = self.resolve_syntax(&element.syntax.components, name, Ghost(fuel));
        let mut element = element;
        element.syntax = CssSyntaxTree::new(rs);
        element.resolved = true;
        let out = element.copy();
        let ghost before = named(self.properties@);
        insert_entry(&mut self.properties, name, element);
        proof {
            lemma_mdn_props_view_insert(before, name@, element);
        }
        out
    }

    /// Resolves the components of property `prop_name` one after the other.
    fn resolve_syntax(&mut self, components: &Vec<SyntaxComponent>, prop_name: &str, Ghost(fuel): Ghost<nat>) -> (r: Vec<SyntaxComponent>)
        requires
            mdn_syntax_within(old(self).syntaxes(), old(self).props(), components_view(components@), prop_name@, fuel) is Some,
        ensures
            (final(self).props(), components_view(r@)) == mdn_syntax_within(
                old(self).syntaxes(),
                old(self).props(),
                components_view(components@),
                prop_name@,
                fuel,
            )->0,
            final(self).syntax@ == old(self).syntax@,
            final(self).functions@ == old(self).functions@,
        decreases fuel, 0int, components,
    {
        let ghost syn = self.syntaxes();
        let ghost p0 = self.props();
        let ghost cs = components_view(components@);
        proof {
            lemma_components_view(components@);
            assert(cs.subrange(0, 0) =~= Seq::<ComponentView>::empty());
            assert(components_view(Seq::<SyntaxComponent>::empty()) =~= Seq::<ComponentView>::empty());
        }
        let mut r: Vec<SyntaxComponent> = Vec::new();
        let mut i: usize = 0;
        while i < components.len()
            invariant
                i <= components.len(),
                syn == self.syntaxes(),
                syn == old(self).syntaxes(),
                p0 == old(self).props(),
                self.syntax@ == old(self).syntax@,
                self.functions@ == old(self).functions@,
                cs == components_view(components@),
                cs.len() == components@.len(),
                forall|k: int| 0 <= k < components@.len() ==> cs[k] == component_view(#[trigger] components@[k]),
                mdn_syntax_within(syn, p0, cs, prop_name@, fuel) is Some,
                mdn_syntax_within(syn, p0, cs.subrange(0, i as int), prop_name@, fuel) == Some((self.props(), components_view(r@))),
            decreases components.len() - i,
        {
            proof {
                lemma_mdn_syntax_prefix(syn, p0, cs, prop_name@, fuel, i + 1);
                assert(cs.subrange(0, i + 1).subrange(0, i as int) =~= cs.subrange(0, i as int));
                assert(cs.subrange(0, i + 1)[i as int] == cs[i as int]);
            }
            assert(decreases_to!(components => components@[i as int]));
            let c = self.resolve_component(&components[i], prop_name, Ghost(fuel));
            proof {
                lemma_components_view_push(r@, c);
            }
            r.push(c);
            i += 1;
        }
        assert(cs.subrange(0, i as int) =~= cs);
        r
    }

    /// Resolves component `component` of property `prop_name` (see `mdn_component_within`).
    fn resolve_component(&mut self, component: &SyntaxComponent, prop_name: &str, Ghost(fuel): Ghost<nat>) -> (r: SyntaxComponent)
        requires
            mdn_component_within(old(self).syntaxes(), old(self).props(), component_view(*component), prop_name@, fuel) is Some,
        ensures
            (final(self).props(), component_view(r)) == mdn_component_within(
                old(self).syntaxes(),
                old(self).props(),
                component_view(*component),
                prop_name@,
                fuel,
            )->0,
            final(self).syntax@ == old(self).syntax@,
            final(self).functions@ == old(self).functions@,
        decreases fuel, 0int, component,
    {
        match component {
            SyntaxComponent::TypeDefinition { definition, multiplier, .. } => {
                proof {
                    lemma_index_of_key_keys(self.syntaxes(), named(self.syntax@), definition@, 0);
                    lemma_index_of_key_keys(self.props(), named(self.properties@), definition@, 0);
                }
                if let Some(i) = key_index(&self.syntax, definition.as_str()) {
                    let cs = copy_components(&self.syntax[i].1.syntax.components);
                    if self.syntax[i].1.resolved {
                        return SyntaxComponent::Group { components: cs, combinator: GroupCombinators::Juxtaposition, multiplier: *multiplier };
                    }
                    let rs = self.resolve_syntax(&cs, prop_name, Ghost((fuel - 1) as nat));
                    return SyntaxComponent::Group { components: rs, combinator: GroupCombinators::Juxtaposition, multiplier: *multiplier };
                }
                let same = chars_eq(&chars_of(prop_name), &chars_of(definition.as_str()));
                if !same {
                    if let Some(j) = key_index(&self.properties, definition.as_str()) {
                        let resolved_prop = if self.properties[j].1.resolved {
                            self.properties[j].1.copy()
                        } else {
                            self.resolve_property(definition.as_str(), Ghost((fuel - 1) as nat))
                        };
                        proof {
                            lemma_components_view(resolved_prop.syntax.components@);
                        }
                        if resolved_prop.syntax.components.len() == 1 {
                            return resolved_prop.syntax.components[0].copy();
                        }
                        return SyntaxComponent::Group {
                            components: copy_components(&resolved_prop.syntax.components),
                            combinator: GroupCombinators::Juxtaposition,
                            multiplier: *multiplier,
                        };
                    }
                }
                if is_mdn_builtin(definition.as_str()) {
                    return component.copy();
                }
                proof {
                    assert(false);
                }
                component.copy()
            },
            SyntaxComponent::Group { components, combinator, multiplier } => {
                let rs = self.resolve_syntax(components, prop_name, Ghost(fuel));
                SyntaxComponent::Group { components: rs, combinator: *combinator, multiplier: *multiplier }
            },
            _ => component.copy(),
        }
    }
}

// ---------------------------------------------------------------------------------------
// What resolving keeps.

/// The value stored under `k` after storing `v` under `n`.
pub(crate) proof fn lemma_lookup_insert<T>(s: Seq<(Seq<char>, T)>, n: Seq<char>, v: T, k: Seq<char>)
    ensures
        lookup(spec_insert(s, n, v), k) == if k == n {
            Some(v)
        } else {
            lookup(s, k)
        },
{
    let t = spec_insert(s, n, v);
    crate::shorthands::lemma_index_of_key(s, n, 0);
    crate::shorthands::lemma_index_of_key(s, k, 0);
    crate::shorthands::lemma_index_of_key(t, k, 0);
    match index_of_key(s, n, 0) {
        Some(j) => {
            assert(t[j] == (n, v));
            if k == n {
                if let Some(m) = index_of_key(t, k, 0) {
                    if m < j {
                        assert(t[m] == s[m]);
                    }
                    if m > j {
                        assert(t[j].0 == k);
                    }
                }
            } else {
                if let Some(m) = index_of_key(s, k, 0) {
                    assert(t[m] == s[m]);
                }
                if let Some(m) = index_of_key(t, k, 0) {
                    assert(t[m] == s[m]);
                    if let Some(q) = index_of_key(s, k, 0) {
                        if q < m {
                            assert(t[q] == s[q]);
                        }
                    }
                }
            }
        },
        None => {
            assert(t[s.len() as int] == (n, v));
            if let Some(m) = index_of_key(s, k, 0) {
                assert(t[m] == s[m]);
            }
            if let Some(m) = index_of_key(t, k, 0) {
                if m < s.len() {
                    assert(t[m] == s[m]);
                }
            }
        },
    }
}

/// Every property defined in `ps` is defined in `ps2`, and marked resolved there when it
/// is marked resolved in `ps`.
pub open spec fn keeps_resolved(ps: Seq<(Seq<char>, MdnPropertyView)>, ps2: Seq<(Seq<char>, MdnPropertyView)>) -> bool {
    forall|k: Seq<char>| #[trigger] kept_at(ps, ps2, k)
}

/// Property `k`, when defined in `ps`, is defined in `ps2`, and resolved there when it is in `ps`.
pub open spec fn kept_at(ps: Seq<(Seq<char>, MdnPropertyView)>, ps2: Seq<(Seq<char>, MdnPropertyView)>, k: Seq<char>) -> bool {
    lookup(ps, k) matches Some(e) ==> (lookup(ps2, k) matches Some(e2) && (e.resolved ==> e2.resolved))
}

/// Property `k` is defined in `ps` and marked resolved.
pub open spec fn resolved_in(ps: Seq<(Seq<char>, MdnPropertyView)>, k: Seq<char>) -> bool {
    lookup(ps, k) matches Some(e) && e.resolved
}

proof fn lemma_mdn_component_keeps(
    syn: Seq<(Seq<char>, (Seq<ComponentView>, bool))>,
    ps: Seq<(Seq<char>, MdnPropertyView)>,
    c: ComponentView,
    prop: Seq<char>,
    fuel: nat,
)
    requires
        mdn_component_within(syn, ps, c, prop, fuel) is Some,
    ensures
        keeps_resolved(ps, (mdn_component_within(syn, ps, c, prop, fuel)->0).0),
    decreases fuel, 0int, c,
{
    match c {
        ComponentView::TypeDefinition(t, _, _, m) => match lookup(syn, t) {
            Some(se) => {
                if !se.1 {
                    lemma_mdn_syntax_keeps(syn, ps, se.0, prop, (fuel - 1) as nat);
                }
            },
            None => {
                if t != prop {
                    if let Some(pe) = lookup(ps, t) {
                        if !pe.resolved {
                            lemma_mdn_property_keeps(syn, ps, t, (fuel - 1) as nat);
                        }
                    }
                }
            },
        },
        ComponentView::Group(cs, _, _) => {
            lemma_mdn_syntax_keeps(syn, ps, cs, prop, fuel);
        },
        _ => {},
    }
}

proof fn lemma_mdn_syntax_keeps(
    syn: Seq<(Seq<char>, (Seq<ComponentView>, bool))>,
    ps: Seq<(Seq<char>, MdnPropertyView)>,
    cs: Seq<ComponentView>,
    prop: Seq<char>,
    fuel: nat,
)
    requires
        mdn_syntax_within(syn, ps, cs, prop, fuel) is Some,
    ensures
        keeps_resolved(ps, (mdn_syntax_within(syn, ps, cs, prop, fuel)->0).0),
    decreases fuel, 0int, cs,
{
    if cs.len() > 0 {
        let c1 = cs.subrange(0, cs.len() - 1);
        lemma_mdn_syntax_keeps(syn, ps, c1, prop, fuel);
        let ps1 = (mdn_syntax_within(syn, ps, c1, prop, fuel)->0).0;
        lemma_mdn_component_keeps(syn, ps1, cs[cs.len() - 1], prop, fuel);
        let ps2 = (mdn_syntax_within(syn, ps, cs, prop, fuel)->0).0;
        assert forall|k: Seq<char>| #[trigger] kept_at(ps, ps2, k) by {
            assert(kept_at(ps, ps1, k));
            assert(kept_at(ps1, ps2, k));
        }
    }
}

proof fn lemma_mdn_property_keeps(
    syn: Seq<(Seq<char>, (Seq<ComponentView>, bool))>,
    ps: Seq<(Seq<char>, MdnPropertyView)>,
    name: Seq<char>,
    fuel: nat,
)
    requires
        mdn_property_within(syn, ps, name, fuel) is Some,
    ensures
        keeps_resolved(ps, (mdn_property_within(syn, ps, name, fuel)->0).0),
        resolved_in((mdn_property_within(syn, ps, name, fuel)->0).0, name),
    decreases fuel, 1int, Seq::<ComponentView>::empty(),
{
    let e = lookup(ps, name)->0;
    if !e.resolved {
        lemma_mdn_syntax_keeps(syn, ps, e.syntax, name, fuel);
        let (ps2, cs) = mdn_syntax_within(syn, ps, e.syntax, name, fuel)->0;
        let e2 = MdnPropertyView { syntax: cs, resolved: true, ..e };
        lemma_lookup_insert(ps2, name, e2, name);
        assert forall|k: Seq<char>| #[trigger] kept_at(ps, spec_insert(ps2, name, e2), k) by {
            lemma_lookup_insert(ps2, name, e2, k);
            assert(kept_at(ps, ps2, k));
        }
    }
}

proof fn lemma_mdn_all_keeps(
    syn: Seq<(Seq<char>, (Seq<ComponentView>, bool))>,
    ps: Seq<(Seq<char>, MdnPropertyView)>,
    names: Seq<Seq<char>>,
    fuel: nat,
)
    requires
        mdn_all_within(syn, ps, names, fuel) is Some,
    ensures
        keeps_resolved(ps, mdn_all_within(syn, ps, names, fuel)->0),
        forall|k: Seq<char>| names.contains(k) ==> #[trigger] resolved_in(mdn_all_within(syn, ps, names, fuel)->0, k),
    decreases names.len(),
{
    if names.len() > 0 {
        let n1 = names.drop_last();
        lemma_mdn_all_keeps(syn, ps, n1, fuel);
        let ps1 = mdn_all_within(syn, ps, n1, fuel)->0;
        lemma_mdn_property_keeps(syn, ps1, names.last(), fuel);
        let ps2 = mdn_all_within(syn, ps, names, fuel)->0;
        assert forall|k: Seq<char>| #[trigger] kept_at(ps, ps2, k) by {
            assert(kept_at(ps, ps1, k));
            assert(kept_at(ps1, ps2, k));
        }
        assert forall|k: Seq<char>| names.contains(k) implies #[trigger] resolved_in(ps2, k) by {
            if k != names.last() {
                let j = choose|j: int| 0 <= j < names.len() && names[j] == k;
                assert(n1[j] == k);
                assert(n1.contains(k));
                assert(resolved_in(ps1, k));
                assert(kept_at(ps1, ps2, k));
            }
        }
    }
}

/// Law: after `resolve`, every property that was defined is still defined and is marked
/// resolved.
pub proof fn lemma_resolve_marks_every_property(d: &CssDefinitions, k: Seq<char>)
    requires
        mdn_resolve_ends(d),
        lookup(d.props(), k) is Some,
    ensures
        resolved_in(mdn_resolve_all(d), k),
{
    let names = sort_names(keys(d.props()));
    let f = choose|f: nat| mdn_all_within(d.syntaxes(), d.props(), names, f) is Some;
    lemma_mdn_all_keeps(d.syntaxes(), d.props(), names, f);
    crate::shorthands::lemma_index_of_key(d.props(), k, 0);
    let j = index_of_key(d.props(), k, 0)->0;
    assert(keys(d.props())[j] == k);
    crate::property_definitions::lemma_sort_names_contains(keys(d.props()), k);
}

// ---------------------------------------------------------------------------------------
// Following references deeper than needed changes nothing.

proof fn lemma_mdn_component_more_fuel(
    syn: Seq<(Seq<char>, (Seq<ComponentView>, bool))>,
    ps: Seq<(Seq<char>, MdnPropertyView)>,
    c: ComponentView,
    prop: Seq<char>,
    f: nat,
    g: nat,
)
    requires
        f <= g,
        mdn_component_within(syn, ps, c, prop, f) is Some,
    ensures
        mdn_component_within(syn, ps, c, prop, g) == mdn_component_within(syn, ps, c, prop, f),
    decreases f, 0int, c,
{
    match c {
        ComponentView::TypeDefinition(t, _, _, m) => match lookup(syn, t) {
            Some(se) => {
                if !se.1 {
                    lemma_mdn_syntax_more_fuel(syn, ps, se.0, prop, (f - 1) as nat, (g - 1) as nat);
                }
            },
            None => {
                if t != prop {
                    if let Some(pe) = lookup(ps, t) {
                        if !pe.resolved {
                            lemma_mdn_property_more_fuel(syn, ps, t, (f - 1) as nat, (g - 1) as nat);
                        }
                    }
                }
            },
        },
        ComponentView::Group(cs, _, _) => {
            lemma_mdn_syntax_more_fuel(syn, ps, cs, prop, f, g);
        },
        _ => {},
    }
}

proof fn lemma_mdn_syntax_more_fuel(
    syn: Seq<(Seq<char>, (Seq<ComponentView>, bool))>,
    ps: Seq<(Seq<char>, MdnPropertyView)>,
    cs: Seq<ComponentView>,
    prop: Seq<char>,
    f: nat,
    g: nat,
)
    requires
        f <= g,
        mdn_syntax_within(syn, ps, cs, prop, f) is Some,
    ensures
        mdn_syntax_within(syn, ps, cs, prop, g) == mdn_syntax_within(syn, ps, cs, prop, f),
    decreases f, 0int, cs,
{
    if cs.len() > 0 {
        let c1 = cs.subrange(0, cs.len() - 1);
        lemma_mdn_syntax_more_fuel(syn, ps, c1, prop, f, g);
        let ps1 = (mdn_syntax_within(syn, ps, c1, prop, f)->0).0;
        lemma_mdn_component_more_fuel(syn, ps1, cs[cs.len() - 1], prop, f, g);
    }
}

proof fn lemma_mdn_property_more_fuel(
    syn: Seq<(Seq<char>, (Seq<ComponentView>, bool))>,
    ps: Seq<(Seq<char>, MdnPropertyView)>,
    name: Seq<char>,
    f: nat,
    g: nat,
)
    requires
        f <= g,
        mdn_property_within(syn, ps, name, f) is Some,
    ensures
        mdn_property_within(syn, ps, name, g) == mdn_property_within(syn, ps, name, f),
    decreases f, 1int, Seq::<ComponentView>::empty(),
{
    let e = lookup(ps, name)->0;
    if !e.resolved {
        lemma_mdn_syntax_more_fuel(syn, ps, e.syntax, name, f, g);
    }
}

proof fn lemma_mdn_all_more_fuel(
    syn: Seq<(Seq<char>, (Seq<ComponentView>, bool))>,
    ps: Seq<(Seq<char>, MdnPropertyView)>,
    names: Seq<Seq<char>>,
    f: nat,
    g: nat,
)
    requires
        f <= g,
        mdn_all_within(syn, ps, names, f) is Some,
    ensures
        mdn_all_within(syn, ps, names, g) == mdn_all_within(syn, ps, names, f),
    decreases names.len(),
{
    if names.len() > 0 {
        lemma_mdn_all_more_fuel(syn, ps, names.drop_last(), f, g);
        let ps1 = mdn_all_within(syn, ps, names.drop_last(), f)->0;
        lemma_mdn_property_more_fuel(syn, ps1, names.last(), f, g);
    }
}

/// Resolving all properties gives the same definitions whatever depth of references is
/// allowed, once it is enough: `mdn_resolve_all` does not depend on the depth it picks.
pub proof fn lemma_mdn_resolve_any_depth(d: &CssDefinitions, f: nat)
    requires
        mdn_all_within(d.syntaxes(), d.props(), sort_names(keys(d.props())), f) is Some,
    ensures
        mdn_resolve_all(d) == mdn_all_within(d.syntaxes(), d.props(), sort_names(keys(d.props())), f)->0,
{
    let names = sort_names(keys(d.props()));
    let c = choose|c: nat| mdn_all_within(d.syntaxes(), d.props(), names, c) is Some;
    if c <= f {
        lemma_mdn_all_more_fuel(d.syntaxes(), d.props(), names, c, f);
    } else {
        lemma_mdn_all_more_fuel(d.syntaxes(), d.props(), names, f, c);
    }
}

// ---------------------------------------------------------------------------------------
// The definition files.

/// A function as the MDN functions file lists it: its name and the URL of its page as
/// written in the file (quoted), and the source of its syntax.
pub struct FunctionEntry {
    pub name: String,
    pub syntax: String,
    pub mdn_url: String,
}

/// A property as the MDN properties file lists it, with the URL of its page.
pub struct MdnPropertyEntry {
    pub property: PropertyEntry,
    pub mdn_url: String,
}

/// A function definition as values: its name, its syntax and the URL of its page.
pub open spec fn function_view(f: FunctionDefinition) -> (Seq<char>, Seq<ComponentView>, Seq<char>) {
    (f.name@, f.syntax.view_components(), f.mdn_url@)
}

/// The values of named function definitions.
pub open spec fn functions_view(s: Seq<(Seq<char>, FunctionDefinition)>) -> Seq<(Seq<char>, (Seq<char>, Seq<ComponentView>, Seq<char>))> {
    s.map_values(|e: (Seq<char>, FunctionDefinition)| (e.0, function_view(e.1)))
}

/// The functions of the functions file, by their name as written in the file.
pub open spec fn function_file(s: Seq<FunctionEntry>) -> Seq<(Seq<char>, (Seq<char>, Seq<ComponentView>, Seq<char>))>
    decreases s.len(),
{
    if s.len() == 0 {
        Seq::empty()
    } else {
        let e = s.last();
        spec_insert(function_file(s.drop_last()), e.name@, (e.name@, compiled_tree(e.syntax@), e.mdn_url@))
    }
}

/// The named syntaxes of the syntax file, by name; an entry whose syntax does not compile
/// is left out.
pub open spec fn mdn_syntax_file(s: Seq<SyntaxEntry>) -> Seq<(Seq<char>, (Seq<ComponentView>, bool))>
    decreases s.len(),
{
    if s.len() == 0 {
        Seq::empty()
    } else {
        match compile_result(s.last().syntax@) {
            Compiled::Tree(cs) => spec_insert(mdn_syntax_file(s.drop_last()), s.last().name@, (cs, false)),
            Compiled::Fails(_) => mdn_syntax_file(s.drop_last()),
        }
    }
}

/// The definition that a property entry gives: not resolved.
pub open spec fn mdn_entry_property(e: MdnPropertyEntry) -> MdnPropertyView {
    let p = entry_property(e.property);
    MdnPropertyView {
        name: p.name,
        computed: p.computed,
        syntax: p.syntax,
        inherited: p.inherited,
        initial_value: p.initial_value,
        mdn_url: e.mdn_url@,
        resolved: false,
    }
}

/// The properties of the properties file, by name.
pub open spec fn mdn_property_file(s: Seq<MdnPropertyEntry>) -> Seq<(Seq<char>, MdnPropertyView)>
    decreases s.len(),
{
    if s.len() == 0 {
        Seq::empty()
    } else {
        spec_insert(mdn_property_file(s.drop_last()), s.last().property.name@, mdn_entry_property(s.last()))
    }
}

/// Storing a function definition and taking the values commute.
proof fn lemma_functions_view_insert(s: Seq<(Seq<char>, FunctionDefinition)>, k: Seq<char>, v: FunctionDefinition)
    ensures
        functions_view(spec_insert(s, k, v)) == spec_insert(functions_view(s), k, function_view(v)),
{
    lemma_index_of_key_keys(functions_view(s), s, k, 0);
    crate::shorthands::lemma_index_of_key(s, k, 0);
    match index_of_key(s, k, 0) {
        Some(i) => {
            assert(functions_view(spec_insert(s, k, v)) =~= functions_view(s).update(i, (k, function_view(v))));
        },
        None => {
            assert(functions_view(spec_insert(s, k, v)) =~= functions_view(s).push((k, function_view(v))));
        },
    }
}

/// Storing a syntax definition and taking the values commute.
proof fn lemma_mdn_syntax_view_insert(s: Seq<(Seq<char>, SyntaxDefinition)>, k: Seq<char>, v: SyntaxDefinition)
    ensures
        mdn_syntax_view(spec_insert(s, k, v)) == spec_insert(mdn_syntax_view(s), k, (v.syntax.view_components(), v.resolved)),
{
    lemma_index_of_key_keys(mdn_syntax_view(s), s, k, 0);
    crate::shorthands::lemma_index_of_key(s, k, 0);
    match index_of_key(s, k, 0) {
        Some(i) => {
            assert(mdn_syntax_view(spec_insert(s, k, v)) =~= mdn_syntax_view(s).update(
                i,
                (k, (v.syntax.view_components(), v.resolved)),
            ));
        },
        None => {
            assert(mdn_syntax_view(spec_insert(s, k, v)) =~= mdn_syntax_view(s).push((k, (v.syntax.view_components(), v.resolved))));
        },
    }
}

/// Compiles the syntax of each function of the functions file and collects the
/// definitions by their name as written in the file (see `function_file`).
pub fn parse_mdn_functions_file(entries: &[FunctionEntry]) -> (r: Vec<(String, FunctionDefinition)>)
    requires
        forall|i: int| 0 <= i < entries@.len() ==> compiles(#[trigger] entries@[i].syntax@),
    ensures
        functions_view(named(r@)) == function_file(entries@),
{
    let mut r: Vec<(String, FunctionDefinition)> = Vec::new();
    let mut i: usize = 0;
    assert(functions_view(named(r@)) =~= function_file(entries@.take(0)));
    while i < entries.len()
        invariant
            i <= entries.len(),
            forall|j: int| 0 <= j < entries@.len() ==> compiles(#[trigger] entries@[j].syntax@),
            functions_view(named(r@)) == function_file(entries@.take(i as int)),
        decreases entries.len() - i,
    {
        let e = &entries[i];
        assert(entries@.take(i + 1).drop_last() =~= entries@.take(i as int));
        assert(entries@.take(i + 1).last() == entries@[i as int]);
        assert(compiles(entries@[i as int].syntax@));
        let syntax = match CssSyntax::new(e.syntax.as_str()).compile() {
            Ok(ast) => ast,
            Err(_) => {
                proof {
                    assert(false);
                }
                return r;
            },
        };
        let def = FunctionDefinition { name: e.name.clone(), syntax, mdn_url: e.mdn_url.clone() };
        let ghost before = named(r@);
        insert_entry(&mut r, e.name.as_str(), def);
        proof {
            lemma_functions_view_insert(before, e.name@, def);
        }
        i += 1;
    }
    assert(entries@.take(i as int) =~= entries@);
    r
}

/// Compiles each named syntax of the syntax file and collects those that compile by name
/// (see `mdn_syntax_file`); each definition carries its own name.
pub fn parse_mdn_syntax_file(entries: &[SyntaxEntry]) -> (r: Vec<(String, SyntaxDefinition)>)
    ensures
        mdn_syntax_view(named(r@)) == mdn_syntax_file(entries@),
        forall|i: int| 0 <= i < r@.len() ==> (#[trigger] r@[i]).1.name@ == r@[i].0@,
{
    let mut r: Vec<(String, SyntaxDefinition)> = Vec::new();
    let mut i: usize = 0;
    assert(mdn_syntax_view(named(r@)) =~= mdn_syntax_file(entries@.take(0)));
    while i < entries.len()
        invariant
            i <= entries.len(),
            mdn_syntax_view(named(r@)) == mdn_syntax_file(entries@.take(i as int)),
            forall|j: int| 0 <= j < r@.len() ==> (#[trigger] r@[j]).1.name@ == r@[j].0@,
        decreases entries.len() - i,
    {
        let e = &entries[i];
        assert(entries@.take(i + 1).drop_last() =~= entries@.take(i as int));
        assert(entries@.take(i + 1).last() == entries@[i as int]);
        match CssSyntax::new(e.syntax.as_str()).compile() {
            Ok(ast) => {
                let def = SyntaxDefinition { name: e.name.clone(), syntax: ast, resolved: false };
                let ghost before = named(r@);
                let ghost r0 = r@;
                insert_entry(&mut r, e.name.as_str(), def);
                proof {
                    lemma_mdn_syntax_view_insert(before, e.name@, def);
                    assert forall|j: int| 0 <= j < r@.len() implies (#[trigger] r@[j]).1.name@ == r@[j].0@ by {
                        assert(named(r@)[j] == (r@[j].0@, r@[j].1));
                        crate::shorthands::lemma_index_of_key(before, e.name@, 0);
                        match index_of_key(before, e.name@, 0) {
                            Some(k) => {
                                if j != k {
                                    assert(named(r@)[j] == before[j]);
                                    assert(before[j] == (r0[j].0@, r0[j].1));
                                }
                            },
                            None => {
                                if j < r0.len() {
                                    assert(named(r@)[j] == before[j]);
                                    assert(before[j] == (r0[j].0@, r0[j].1));
                                }
                            },
                        }
                    }
                }
            },
            Err(_) => {},
        }
        i += 1;
    }
    assert(entries@.take(i as int) =~= entries@);
    r
}

/// Compiles the syntax of each property of the properties file and collects the
/// definitions by name (see `mdn_property_file`); none is resolved yet.
pub fn parse_mdn_property_file(entries: &[MdnPropertyEntry]) -> (r: Vec<(String, PropertyDefinition)>)
    requires
        forall|i: int| 0 <= i < entries@.len() ==> compiles(#[trigger] entries@[i].property.syntax@),
    ensures
        mdn_props_view(named(r@)) == mdn_property_file(entries@),
{
    let mut r: Vec<(String, PropertyDefinition)> = Vec::new();
    let mut i: usize = 0;
    assert(mdn_props_view(named(r@)) =~= mdn_property_file(entries@.take(0)));
    while i < entries.len()
        invariant
            i <= entries.len(),
            forall|j: int| 0 <= j < entries@.len() ==> compiles(#[trigger] entries@[j].property.syntax@),
            mdn_props_view(named(r@)) == mdn_property_file(entries@.take(i as int)),
        decreases entries.len() - i,
    {
        let e = &entries[i].property;
        assert(entries@.take(i + 1).drop_last() =~= entries@.take(i as int));
        assert(entries@.take(i + 1).last() == entries@[i as int]);
        assert(compiles(entries@[i as int].property.syntax@));
        let syntax = match CssSyntax::new(e.syntax.as_str()).compile() {
            Ok(ast) => ast,
            Err(_) => {
                proof {
                    assert(false);
                }
                return r;
            },
        };
        let initial_value = match &e.initial_value {
            Some(v) => Some(v.copy()),
            None => None,
        };
        let def = PropertyDefinition {
            name: e.name.clone(),
            computed: strings_value(&e.computed),
            syntax,
            inherited: e.inherited,
            initial_value,
            mdn_url: entries[i].mdn_url.clone(),
            resolved: false,
        };
        let ghost before = named(r@);
        insert_entry(&mut r, e.name.as_str(), def);
        proof {
            lemma_mdn_props_view_insert(before, e.name@, def);
        }
        i += 1;
    }
    assert(entries@.take(i as int) =~= entries@);
    r
}

/// Resolving the properties of the definition files ends.
pub open spec fn files_resolve(syntax: Seq<SyntaxEntry>, properties: Seq<MdnPropertyEntry>) -> bool {
    exists|f: nat|
        mdn_all_within(
            mdn_syntax_file(syntax),
            mdn_property_file(properties),
            sort_names(keys(mdn_property_file(properties))),
            f,
        ) is Some
}

/// The definitions of the files: the functions, the named syntaxes, and the properties
/// resolved in the order of their names.
pub fn parse_mdn_definition_files(
    functions: &[FunctionEntry],
    syntax: &[SyntaxEntry],
    properties: &[MdnPropertyEntry],
) -> (r: CssDefinitions)
    requires
        forall|i: int| 0 <= i < functions@.len() ==> compiles(#[trigger] functions@[i].syntax@),
        forall|i: int| 0 <= i < properties@.len() ==> compiles(#[trigger] properties@[i].property.syntax@),
        files_resolve(syntax@, properties@),
    ensures
        functions_view(named(r.functions@)) == function_file(functions@),
        r.syntaxes() == mdn_syntax_file(syntax@),
        r.props() == mdn_all_within(
            mdn_syntax_file(syntax@),
            mdn_property_file(properties@),
            sort_names(keys(mdn_property_file(properties@))),
            choose|f: nat|
                mdn_all_within(
                    mdn_syntax_file(syntax@),
                    mdn_property_file(properties@),
                    sort_names(keys(mdn_property_file(properties@))),
                    f,
                ) is Some,
        )->0,
{
    let functions = parse_mdn_functions_file(functions);
    let syntax = parse_mdn_syntax_file(syntax);
    let properties = parse_mdn_property_file(properties);
    let mut definitions = CssDefinitions { properties, functions, syntax };
    definitions.resolve();
    definitions
}

} // verus!
