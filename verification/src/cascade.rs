//! Declarations in the cascade: where they come from, how important they are, and which one
//! a property takes its value from.
use vstd::prelude::*;
use std::cmp::Ordering;
use vstd::std_specs::cmp::{PartialEqSpecImpl, PartialOrdSpecImpl};
use crate::css_value::{CssValue, CssValueView};
use crate::property_definitions::CssDefinitions;
use crate::shorthands::index_of_key;
use crate::syntax::strings_view;
use crate::text::{chars_eq, chars_of};

verus! {

/// The origin of a stylesheet.
#[derive(Debug, Clone, Copy, PartialEq, Eq, Structural)]
pub enum CssOrigin {
    /// The browser's own stylesheet
    UserAgent,
    /// A stylesheet of the user
    User,
    /// A stylesheet of the page
    Author,
}

/// The specificity of a selector: ids, classes (and attributes, pseudo classes), types.
#[derive(Debug, Clone, Copy, PartialEq, Eq, Structural)]
pub struct Specificity {
    pub ids: u32,
    pub classes: u32,
    pub types: u32,
}

impl Specificity {
    /// A specificity of `ids` ids, `classes` classes and `types` types.
    pub fn new(ids: u32, classes: u32, types: u32) -> (s: Self)
        ensures
            s == (Specificity { ids, classes, types }),
    {
        Specificity { ids, classes, types }
    }
}

/// A declarationProperty defines a single value for a property (color: red;). It consists of
/// the value, origin, importance, location and specificity of the declaration.
#[derive(Debug)]
pub struct DeclarationProperty {
    /// The actual value of the property
    pub value: CssValue,
    /// Origin of the declaration (user stylesheet, author stylesheet etc.)
    pub origin: CssOrigin,
    /// Whether the declaration is !important
    pub important: bool,
    /// The location of the declaration in the stylesheet (name.css:123) or empty
    pub location: String,
    /// The specificity of the selector that declared this property
    pub specificity: Specificity,
}

/// The priority of a declaration in the cascade, by origin and importance: important
/// user-agent declarations come first (7), then important user (6) and author (5)
/// declarations, then normal author (3), user (2) and user-agent (1) declarations.
pub open spec fn priority_of(origin: CssOrigin, important: bool) -> u8 {
    match origin {
        CssOrigin::UserAgent => if important {
            7
        } else {
            1
        },
        CssOrigin::User => if important {
            6
        } else {
            2
        },
        CssOrigin::Author => if important {
            5
        } else {
            3
        },
    }
}

/// The order of two priorities.
pub open spec fn order_of(a: u8, b: u8) -> Ordering {
    if a < b {
        Ordering::Less
    } else if a == b {
        Ordering::Equal
    } else {
        Ordering::Greater
    }
}

impl DeclarationProperty {
    /// The priority of the declaration in the cascade.
    pub open spec fn spec_priority(&self) -> u8 {
        priority_of(self.origin, self.important)
    }

    /// Priority of the declaration based on the origin and importance as defined in
    /// <https://developer.mozilla.org/en-US/docs/Web/CSS/Cascade>
    pub fn priority(&self) -> (p: u8)
        ensures
            p == self.spec_priority(),
    {
        match self.origin {
            CssOrigin::UserAgent => if self.important {
                7
            } else {
                1
            },
            CssOrigin::User => if self.important {
                6
            } else {
                2
            },
            CssOrigin::Author => if self.important {
                5
            } else {
                3
            },
        }
    }
}

impl PartialEq for DeclarationProperty {
    /// Two declarations are equal when their priorities are.
    fn eq(&self, other: &Self) -> (r: bool) {
        self.priority() == other.priority()
    }
}

impl PartialEqSpecImpl for DeclarationProperty {
    open spec fn obeys_eq_spec() -> bool {
        true
    }

    open spec fn eq_spec(&self, other: &Self) -> bool {
        self.spec_priority() == other.spec_priority()
    }
}

impl Eq for DeclarationProperty {
}

impl PartialOrd for DeclarationProperty {
    /// Declarations are ordered by priority.
    fn partial_cmp(&self, other: &Self) -> (r: Option<Ordering>) {
        let a = self.priority();
        let b = other.priority();
        if a < b {
            Some(Ordering::Less)
        } else if a == b {
            Some(Ordering::Equal)
        } else {
            Some(Ordering::Greater)
        }
    }
}

impl PartialOrdSpecImpl for DeclarationProperty {
    open spec fn obeys_partial_cmp_spec() -> bool {
        true
    }

    open spec fn partial_cmp_spec(&self, other: &Self) -> Option<Ordering> {
        Some(order_of(self.spec_priority(), other.spec_priority()))
    }
}

/// The index of the declaration with the highest priority, the last one among equals (what
/// `Iterator::max` picks).
pub open spec fn max_priority_index(d: Seq<DeclarationProperty>, n: int) -> int
    decreases n,
{
    if n <= 1 {
        0
    } else {
        let k = max_priority_index(d, n - 1);
        if d[n - 1].spec_priority() >= d[k].spec_priority() {
            n - 1
        } else {
            k
        }
    }
}

/// Law: an important declaration outranks every normal one, whatever the origins.
pub proof fn lemma_important_outranks_normal(a: CssOrigin, b: CssOrigin)
    ensures
        priority_of(a, true) > priority_of(b, false),
{
}

/// Law: among normal declarations author beats user beats user agent; among important ones
/// the order is reversed.
pub proof fn lemma_origin_order()
    ensures
        priority_of(CssOrigin::Author, false) > priority_of(CssOrigin::User, false),
        priority_of(CssOrigin::User, false) > priority_of(CssOrigin::UserAgent, false),
        priority_of(CssOrigin::UserAgent, true) > priority_of(CssOrigin::User, true),
        priority_of(CssOrigin::User, true) > priority_of(CssOrigin::Author, true),
{
}

/// Law: the declaration that the cascade picks among the first `n` has the highest priority
/// of them, and every later one has a lower priority.
pub proof fn lemma_max_priority_index(d: Seq<DeclarationProperty>, n: int)
    requires
        1 <= n <= d.len(),
    ensures
        0 <= max_priority_index(d, n) < n,
        forall|i: int| 0 <= i < n ==> #[trigger] d[i].spec_priority() <= d[max_priority_index(d, n)].spec_priority(),
        forall|i: int| max_priority_index(d, n) < i < n ==> #[trigger] d[i].spec_priority() < d[max_priority_index(d, n)].spec_priority(),
    decreases n,
{
    if n > 1 {
        lemma_max_priority_index(d, n - 1);
    }
}

/// A value entry contains all values for a single property for a single node.
#[derive(Debug)]
pub struct CssProperty {
    /// The name of the property
    pub name: String,
    /// True when this property needs to be recalculated
    pub dirty: bool,
    /// List of all declared values for this property
    pub declared: Vec<DeclarationProperty>,
    /// Cascaded value from the declared values (if any)
    pub cascaded: Option<CssValue>,
    /// Specified value from the cascaded value (if any), or inherited value, or initial value
    pub specified: CssValue,
    /// Computed value from the specified value (needs viewport size etc.)
    pub computed: CssValue,
    /// Used value
    pub used: CssValue,
    /// Actual value used in the rendering (after rounding, clipping etc.)
    pub actual: CssValue,
}

impl CssProperty {
    /// A property without declarations, to be computed.
    pub fn new(prop_name: &str) -> (p: Self)
        ensures
            p.name@ == prop_name@,
            p.dirty,
            p.declared@.len() == 0,
            p.cascaded is None,
            p.specified@ == CssValueView::NoneValue,
            p.computed@ == CssValueView::NoneValue,
            p.used@ == CssValueView::NoneValue,
            p.actual@ == CssValueView::NoneValue,
    {
        CssProperty {
            name: prop_name.to_owned(),
            dirty: true,
            declared: Vec::new(),
            cascaded: None,
            specified: CssValue::NoneValue,
            computed: CssValue::NoneValue,
            used: CssValue::NoneValue,
            actual: CssValue::NoneValue,
        }
    }

    /// Marks the property to be computed again.
    pub fn mark_dirty(&mut self)
        ensures
            *final(self) == (CssProperty { dirty: true, ..*old(self) }),
    {
        self.dirty = true;
    }

    /// Marks the property as computed.
    pub fn mark_clean(&mut self)
        ensures
            *final(self) == (CssProperty { dirty: false, ..*old(self) }),
    {
        self.dirty = false;
    }

    /// The specified value: that of the declaration with the highest priority (the last one
    /// among equals), or no value without declarations.
    pub fn find_specified_value(&self) -> (v: CssValue)
        ensures
            self.declared@.len() == 0 ==> v@ == CssValueView::NoneValue,
            self.declared@.len() > 0 ==> v@ == self.declared@[max_priority_index(self.declared@, self.declared@.len() as int)].value@,
    {
        let n = self.declared.len();
        if n == 0 {
            return CssValue::NoneValue;
        }
        let mut best: usize = 0;
        let mut i: usize = 1;
        while i < n
            invariant
                n == self.declared.len(),
                1 <= i <= n,
                best < i,
                best == max_priority_index(self.declared@, i as int),
            decreases n - i,
        {
            if self.declared[i].priority() >= self.declared[best].priority() {
                best = i;
            }
            i += 1;
        }
        self.declared[best].value.copy()
    }
}

impl CssProperty {
    /// Whether the property inherits its value when it has none: what its (resolved)
    /// definition says; not when it has none.
    pub fn is_inheritable(&self, defs: &CssDefinitions) -> (r: bool)
        ensures
            r == match index_of_key(defs.resolved(), self.name@, 0) {
                Some(i) => defs.resolved()[i].1.inherited,
                None => false,
            },
    {
        match defs.find_property(self.name.as_str()) {
            Some(def) => def.inherited(),
            None => false,
        }
    }

    /// Returns true if the property is a shorthand property (ie: border, margin etc): its
    /// definition expands to more than one longhand.
    pub fn is_shorthand(&self, defs: &CssDefinitions) -> (r: bool)
        ensures
            r == match index_of_key(defs.resolved(), self.name@, 0) {
                Some(i) => defs.resolved()[i].1.computed@.len() > 1,
                None => false,
            },
    {
        match defs.find_property(self.name.as_str()) {
            Some(def) => {
                let props = def.expanded_properties();
                assert(strings_view(props@).len() == props@.len());
                assert(strings_view(def.computed@).len() == def.computed@.len());
                props.len() > 1
            },
            None => false,
        }
    }

    /// The longhands of a shorthand property; none for a property that is not one (or has no
    /// definition).
    pub fn get_props_from_shorthand(&self, defs: &CssDefinitions) -> (r: Vec<String>)
        ensures
            strings_view(r@) == match index_of_key(defs.resolved(), self.name@, 0) {
                Some(i) => if defs.resolved()[i].1.computed@.len() == 1 {
                    Seq::empty()
                } else {
                    strings_view(defs.resolved()[i].1.computed@)
                },
                None => Seq::<Seq<char>>::empty(),
            },
    {
        match defs.find_property(self.name.as_str()) {
            Some(def) => {
                let props = def.expanded_properties();
                assert(strings_view(props@).len() == props@.len());
                assert(strings_view(def.computed@).len() == def.computed@.len());
                if props.len() == 1 {
                    let r: Vec<String> = Vec::new();
                    assert(strings_view(r@) =~= Seq::<Seq<char>>::empty());
                    r
                } else {
                    props
                }
            },
            None => {
                let r: Vec<String> = Vec::new();
                assert(strings_view(r@) =~= Seq::<Seq<char>>::empty());
                r
            },
        }
    }

    /// The initial value of the property from its definition (no value when the definition
    /// has none); nothing without a definition.
    pub fn get_initial_value(&self, defs: &CssDefinitions) -> (r: Option<CssValue>)
        ensures
            match index_of_key(defs.resolved(), self.name@, 0) {
                Some(i) => r is Some && r->0@ == match defs.resolved()[i].1.initial_value {
                    Some(v) => v@,
                    None => CssValueView::NoneValue,
                },
                None => r is None,
            },
    {
        match defs.find_property(self.name.as_str()) {
            Some(def) => Some(def.initial_value()),
            None => None,
        }
    }
}

/// The properties of a node, by name.
pub struct CssProperties {
    /// Each property under its name.
    pub properties: Vec<(String, CssProperty)>,
}

/// The properties under their names, as character sequences.
pub open spec fn properties_view(v: Seq<(String, CssProperty)>) -> Seq<(Seq<char>, CssProperty)> {
    v.map_values(|e: (String, CssProperty)| (e.0@, e.1))
}

impl CssProperties {
    /// No properties.
    pub fn new() -> (p: Self)
        ensures
            p.properties@.len() == 0,
    {
        CssProperties { properties: Vec::new() }
    }

    /// The property named `name` (the first one so named), to change in place.
    pub fn get(&mut self, name: &str) -> (r: Option<&mut CssProperty>)
        ensures
            match index_of_key(properties_view(old(self).properties@), name@, 0) {
                Some(i) => r matches Some(p) && *p == old(self).properties@[i].1
                    && final(self).properties@ == old(self).properties@.update(i, (old(self).properties@[i].0, *final(p))),
                None => r is None && final(self).properties@ == old(self).properties@,
            },
    {
        let ghost t = properties_view(self.properties@);
        let mut i: usize = 0;
        let k = chars_of(name);
        while i < self.properties.len()
            invariant
                i <= self.properties.len(),
                self.properties@ == old(self).properties@,
                t == properties_view(self.properties@),
                k@ == name@,
                index_of_key(t, name@, 0) == index_of_key(t, name@, i as int),
            decreases self.properties.len() - i,
        {
            assert(t[i as int].0 == self.properties@[i as int].0@);
            if chars_eq(&chars_of(self.properties[i].0.as_str()), &k) {
                return Some(&mut self.properties[i].1);
            }
            i += 1;
        }
        None
    }
}

impl CssProperties {
    /// The property named `name` (the first one so named).
    pub fn find(&self, name: &str) -> (r: Option<&CssProperty>)
        ensures
            match index_of_key(properties_view(self.properties@), name@, 0) {
                Some(i) => r == Some(&self.properties@[i].1),
                None => r is None,
            },
    {
        let ghost t = properties_view(self.properties@);
        let mut i: usize = 0;
        let k = chars_of(name);
        while i < self.properties.len()
            invariant
                i <= self.properties.len(),
                t == properties_view(self.properties@),
                k@ == name@,
                index_of_key(t, name@, 0) == index_of_key(t, name@, i as int),
            decreases self.properties.len() - i,
        {
            assert(t[i as int].0 == self.properties@[i as int].0@);
            if chars_eq(&chars_of(self.properties[i].0.as_str()), &k) {
                return Some(&self.properties[i].1);
            }
            i += 1;
        }
        None
    }
}

impl Default for CssProperties {
    fn default() -> (p: Self)
        ensures
            p.properties@.len() == 0,
    {
        Self::new()
    }
}

/// A declaration as a value.
pub struct DeclarationView {
    pub value: CssValueView,
    pub origin: CssOrigin,
    pub important: bool,
    pub location: Seq<char>,
    pub specificity: Specificity,
}

/// The value of a declaration.
pub open spec fn declaration_view(d: DeclarationProperty) -> DeclarationView {
    DeclarationView {
        value: d.value@,
        origin: d.origin,
        important: d.important,
        location: d.location@,
        specificity: d.specificity,
    }
}

/// The values of a list of declarations.
pub open spec fn declarations_view(v: Seq<DeclarationProperty>) -> Seq<DeclarationView> {
    v.map_values(|d: DeclarationProperty| declaration_view(d))
}

/// A property as a value.
pub struct PropertyValuesView {
    pub name: Seq<char>,
    pub dirty: bool,
    pub declared: Seq<DeclarationView>,
    pub cascaded: Option<CssValueView>,
    pub specified: CssValueView,
    pub computed: CssValueView,
    pub used: CssValueView,
    pub actual: CssValueView,
}

/// The value of a property.
pub open spec fn property_values_view(p: CssProperty) -> PropertyValuesView {
    PropertyValuesView {
        name: p.name@,
        dirty: p.dirty,
        declared: declarations_view(p.declared@),
        cascaded: match p.cascaded {
            Some(v) => Some(v@),
            None => None,
        },
        specified: p.specified@,
        computed: p.computed@,
        used: p.used@,
        actual: p.actual@,
    }
}

impl DeclarationProperty {
    /// A copy of the declaration.
    pub fn copy(&self) -> (r: DeclarationProperty)
        ensures
            declaration_view(r) == declaration_view(*self),
    {
        DeclarationProperty {
            value: self.value.copy(),
            origin: self.origin,
            important: self.important,
            location: self.location.clone(),
            specificity: self.specificity,
        }
    }
}

impl CssProperty {
    /// A copy of the property.
    pub fn copy(&self) -> (r: CssProperty)
        ensures
            property_values_view(r) == property_values_view(*self),
    {
        let mut declared: Vec<DeclarationProperty> = Vec::new();
        let mut i: usize = 0;
        while i < self.declared.len()
            invariant
                i <= self.declared.len(),
                declarations_view(declared@) == declarations_view(self.declared@).take(i as int),
            decreases self.declared.len() - i,
        {
            let d = self.declared[i].copy();
            let ghost before = declared@;
            declared.push(d);
            assert(declarations_view(declared@) =~= declarations_view(before).push(declaration_view(d)));
            assert(declarations_view(self.declared@).take(i + 1) =~= declarations_view(self.declared@).take(i as int).push(
                declaration_view(self.declared@[i as int]),
            ));
            i += 1;
        }
        assert(declarations_view(self.declared@).take(i as int) =~= declarations_view(self.declared@));
        let cascaded = match &self.cascaded {
            Some(v) => Some(v.copy()),
            None => None,
        };
        CssProperty {
            name: self.name.clone(),
            dirty: self.dirty,
            declared,
            cascaded,
            specified: self.specified.copy(),
            computed: self.computed.copy(),
            used: self.used.copy(),
            actual: self.actual.copy(),
        }
    }
}

} // verus!
