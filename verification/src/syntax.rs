//! The CSS value definition syntax
//! (<https://developer.mozilla.org/en-US/docs/Web/CSS/Value_definition_syntax>): the
//! components a property's syntax is made of.
use vstd::prelude::*;
use crate::css_value::{CssValue, CssValueView};
use crate::errors::Error;
use crate::scan::{trim, trim_chars};
use crate::syntax_matcher::CssSyntaxTree;
use crate::syntax_parser::{parse, sp_parse, Halt, Outcome};
use crate::text::{chars_of, decimal_chars, push_all, string_of, usize_to_chars};

verus! {

/// How the components of a group combine.
#[derive(PartialEq, Eq, Debug, Clone, Copy, Structural)]
pub enum GroupCombinators {
    /// All elements must be matched in order (space delimited)
    Juxtaposition,
    /// &&   (all elements must be matched in any order)
    AllAnyOrder,
    /// ||   (at least one element must be matched in any order)
    AtLeastOneAnyOrder,
    /// |    (exactly one element must be matched)
    ExactlyOne,
}

/// Multiplier for a syntax component that defines how many times this component is allowed to appear
#[derive(PartialEq, Eq, Debug, Clone, Copy, Structural)]
pub enum SyntaxComponentMultiplier {
    /// Default case
    Once,
    /// Zero or more: *
    ZeroOrMore,
    /// One or more +
    OneOrMore,
    /// Optional ?
    Optional,
    /// Between (range) {}
    Between(usize, usize),
    /// !
    AtLeastOneValue,
    /// Comma seperated repeat (# with optional {})
    CommaSeparatedRepeat(usize, usize),
}

/// `{min, max}`
pub open spec fn range_chars(min: usize, max: usize) -> Seq<char> {
    seq!['{'] + decimal_chars(min as nat) + seq![',', ' '] + decimal_chars(max as nat) + seq!['}']
}

/// How a multiplier is written.
pub open spec fn multiplier_chars(m: SyntaxComponentMultiplier) -> Seq<char> {
    match m {
        SyntaxComponentMultiplier::Once => Seq::empty(),
        SyntaxComponentMultiplier::ZeroOrMore => seq!['*'],
        SyntaxComponentMultiplier::OneOrMore => seq!['+'],
        SyntaxComponentMultiplier::Optional => seq!['?'],
        SyntaxComponentMultiplier::Between(min, max) => range_chars(min, max),
        SyntaxComponentMultiplier::AtLeastOneValue => seq!['!'],
        SyntaxComponentMultiplier::CommaSeparatedRepeat(min, max) => seq!['#'] + range_chars(min, max),
    }
}

fn range_vec(min: usize, max: usize) -> (v: Vec<char>)
    ensures
        v@ == range_chars(min, max),
{
    let mut v = vec!['{'];
    push_all(&mut v, &usize_to_chars(min));
    v.push(',');
    v.push(' ');
    push_all(&mut v, &usize_to_chars(max));
    v.push('}');
    assert(v@ =~= range_chars(min, max));
    v
}

impl SyntaxComponentMultiplier {
    /// How the multiplier is written (`*`, `+`, `#{1, 4}`, ...; nothing for `Once`).
    pub fn to_css_string(&self) -> (s: String)
        ensures
            s@ == multiplier_chars(*self),
    {
        let v: Vec<char> = match *self {
            SyntaxComponentMultiplier::Once => Vec::new(),
            SyntaxComponentMultiplier::ZeroOrMore => vec!['*'],
            SyntaxComponentMultiplier::OneOrMore => vec!['+'],
            SyntaxComponentMultiplier::Optional => vec!['?'],
            SyntaxComponentMultiplier::Between(min, max) => range_vec(min, max),
            SyntaxComponentMultiplier::AtLeastOneValue => vec!['!'],
            SyntaxComponentMultiplier::CommaSeparatedRepeat(min, max) => {
                let mut v = vec!['#'];
                push_all(&mut v, &range_vec(min, max));
                v
            },
        };
        assert(v@ =~= multiplier_chars(*self));
        string_of(v.as_slice())
    }
}

/// Represent either a number (i64) or infinity
#[derive(Debug, PartialEq, Eq, Clone, Copy, Structural)]
pub enum NumberOrInfinity {
    /// Nothing defined (no min or max)
    Unbounded,
    /// Finite number (in i64 range)
    FiniteI64(i64),
    /// ∞
    Infinity,
    /// -∞
    NegativeInfinity,
}

/// Represents an optional min and/or max range for a type definition
#[derive(Clone, Copy, Debug, PartialEq, Eq, Structural)]
pub struct RangeType {
    /// Mininum value
    pub min: NumberOrInfinity,
    /// Maximum value
    pub max: NumberOrInfinity,
}

impl RangeType {
    /// Returns an empty range
    pub fn empty() -> (r: Self)
        ensures
            r == (RangeType { min: NumberOrInfinity::Unbounded, max: NumberOrInfinity::Unbounded }),
    {
        RangeType { min: NumberOrInfinity::Unbounded, max: NumberOrInfinity::Unbounded }
    }
}

/// Syntax components. These are the elements that make up the css declaration syntax.
#[derive(PartialEq, Eq, Debug)]
pub enum SyntaxComponent {
    /// Generic keywords like 'left', 'right', 'ease-in' etc
    GenericKeyword { keyword: String, multiplier: SyntaxComponentMultiplier },
    /// Quoted string that indicates css property
    Property { property: String, multiplier: SyntaxComponentMultiplier },
    /// Functions like color(), length() etc
    Function { name: String, arguments: Vec<SyntaxComponent>, multiplier: SyntaxComponentMultiplier },
    /// Type definition like <length>, <color>, or quoted like <'background-color'>. Can include
    /// ranges like <percentage [0, 100]> etc.
    TypeDefinition { definition: String, quoted: bool, range: RangeType, multiplier: SyntaxComponentMultiplier },
    /// Inherit keyword
    Inherit { multiplier: SyntaxComponentMultiplier },
    /// Initial keyword
    Initial { multiplier: SyntaxComponentMultiplier },
    /// Unset keyword
    Unset { multiplier: SyntaxComponentMultiplier },
    /// Literal character ',' or '/'
    Literal { literal: String, multiplier: SyntaxComponentMultiplier },
    /// CSS Value
    Value { value: CssValue, multiplier: SyntaxComponentMultiplier },
    /// Group of components surrounded by []
    Group { components: Vec<SyntaxComponent>, combinator: GroupCombinators, multiplier: SyntaxComponentMultiplier },
    /// The unit() function: an optional integer range and the accepted units
    Unit { from: Option<u32>, to: Option<u32>, unit: Vec<String>, multiplier: SyntaxComponentMultiplier },
    /// Scalar elements (like: <integer>, <number, <percentage> etc)
    Scalar { scalar: String, multiplier: SyntaxComponentMultiplier },
}

/// The mathematical value of a `SyntaxComponent`: strings become character sequences and
/// nested components their own values.
pub enum ComponentView {
    GenericKeyword(Seq<char>, SyntaxComponentMultiplier),
    Property(Seq<char>, SyntaxComponentMultiplier),
    Function(Seq<char>, Seq<ComponentView>, SyntaxComponentMultiplier),
    TypeDefinition(Seq<char>, bool, RangeType, SyntaxComponentMultiplier),
    Inherit(SyntaxComponentMultiplier),
    Initial(SyntaxComponentMultiplier),
    Unset(SyntaxComponentMultiplier),
    Literal(Seq<char>, SyntaxComponentMultiplier),
    Value(CssValueView, SyntaxComponentMultiplier),
    Group(Seq<ComponentView>, GroupCombinators, SyntaxComponentMultiplier),
    Unit(Option<u32>, Option<u32>, Seq<Seq<char>>, SyntaxComponentMultiplier),
    Scalar(Seq<char>, SyntaxComponentMultiplier),
}

/// The value of a component.
pub open spec fn component_view(c: SyntaxComponent) -> ComponentView
    decreases c,
{
    match c {
        SyntaxComponent::GenericKeyword { keyword, multiplier } => ComponentView::GenericKeyword(keyword@, multiplier),
        SyntaxComponent::Property { property, multiplier } => ComponentView::Property(property@, multiplier),
        SyntaxComponent::Function { name, arguments, multiplier } => ComponentView::Function(
            name@,
            components_view(arguments@),
            multiplier,
        ),
        SyntaxComponent::TypeDefinition { definition, quoted, range, multiplier } => ComponentView::TypeDefinition(
            definition@,
            quoted,
            range,
            multiplier,
        ),
        SyntaxComponent::Inherit { multiplier } => ComponentView::Inherit(multiplier),
        SyntaxComponent::Initial { multiplier } => ComponentView::Initial(multiplier),
        SyntaxComponent::Unset { multiplier } => ComponentView::Unset(multiplier),
        SyntaxComponent::Literal { literal, multiplier } => ComponentView::Literal(literal@, multiplier),
        SyntaxComponent::Value { value, multiplier } => ComponentView::Value(value@, multiplier),
        SyntaxComponent::Group { components, combinator, multiplier } => ComponentView::Group(
            components_view(components@),
            combinator,
            multiplier,
        ),
        SyntaxComponent::Unit { from, to, unit, multiplier } => ComponentView::Unit(
            from,
            to,
            strings_view(unit@),
            multiplier,
        ),
        SyntaxComponent::Scalar { scalar, multiplier } => ComponentView::Scalar(scalar@, multiplier),
    }
}

/// The values of a sequence of components.
pub open spec fn components_view(s: Seq<SyntaxComponent>) -> Seq<ComponentView>
    decreases s,
{
    if s.len() == 0 {
        Seq::empty()
    } else {
        components_view(s.subrange(0, s.len() - 1)).push(component_view(s[s.len() - 1]))
    }
}

/// The characters of each string.
pub open spec fn strings_view(s: Seq<String>) -> Seq<Seq<char>> {
    s.map_values(|u: String| u@)
}

/// The values of a sequence of components, one by one.
pub proof fn lemma_components_view(v: Seq<SyntaxComponent>)
    ensures
        components_view(v).len() == v.len(),
        forall|i: int| 0 <= i < v.len() ==> components_view(v)[i] == component_view(#[trigger] v[i]),
    decreases v.len(),
{
    if v.len() > 0 {
        let w = v.subrange(0, v.len() - 1);
        lemma_components_view(w);
        assert forall|i: int| 0 <= i < v.len() implies components_view(v)[i] == component_view(#[trigger] v[i]) by {
            if i < v.len() - 1 {
                assert(w[i] == v[i]);
            }
        }
    }
}

/// The values of a sequence of components after a push.
pub proof fn lemma_components_view_push(v: Seq<SyntaxComponent>, c: SyntaxComponent)
    ensures
        components_view(v.push(c)) == components_view(v).push(component_view(c)),
{
    assert(v.push(c).subrange(0, v.len() as int) =~= v);
}

impl View for SyntaxComponent {
    type V = ComponentView;

    open spec fn view(&self) -> ComponentView {
        component_view(*self)
    }
}

/// The multiplier of a component.
pub open spec fn multiplier_of(c: SyntaxComponent) -> SyntaxComponentMultiplier {
    match c {
        SyntaxComponent::GenericKeyword { multiplier, .. } => multiplier,
        SyntaxComponent::Property { multiplier, .. } => multiplier,
        SyntaxComponent::Function { multiplier, .. } => multiplier,
        SyntaxComponent::TypeDefinition { multiplier, .. } => multiplier,
        SyntaxComponent::Inherit { multiplier } => multiplier,
        SyntaxComponent::Initial { multiplier } => multiplier,
        SyntaxComponent::Unset { multiplier } => multiplier,
        SyntaxComponent::Literal { multiplier, .. } => multiplier,
        SyntaxComponent::Value { multiplier, .. } => multiplier,
        SyntaxComponent::Group { multiplier, .. } => multiplier,
        SyntaxComponent::Unit { multiplier, .. } => multiplier,
        SyntaxComponent::Scalar { multiplier, .. } => multiplier,
    }
}

/// `c` with its multiplier replaced by `m`.
pub open spec fn with_multiplier(c: SyntaxComponent, m: SyntaxComponentMultiplier) -> SyntaxComponent {
    match c {
        SyntaxComponent::GenericKeyword { keyword, .. } => SyntaxComponent::GenericKeyword { keyword, multiplier: m },
        SyntaxComponent::Property { property, .. } => SyntaxComponent::Property { property, multiplier: m },
        SyntaxComponent::Function { name, arguments, .. } => SyntaxComponent::Function { name, arguments, multiplier: m },
        SyntaxComponent::TypeDefinition { definition, quoted, range, .. } => SyntaxComponent::TypeDefinition {
            definition,
            quoted,
            range,
            multiplier: m,
        },
        SyntaxComponent::Inherit { .. } => SyntaxComponent::Inherit { multiplier: m },
        SyntaxComponent::Initial { .. } => SyntaxComponent::Initial { multiplier: m },
        SyntaxComponent::Unset { .. } => SyntaxComponent::Unset { multiplier: m },
        SyntaxComponent::Literal { literal, .. } => SyntaxComponent::Literal { literal, multiplier: m },
        SyntaxComponent::Value { value, .. } => SyntaxComponent::Value { value, multiplier: m },
        SyntaxComponent::Group { components, combinator, .. } => SyntaxComponent::Group {
            components,
            combinator,
            multiplier: m,
        },
        SyntaxComponent::Unit { from, to, unit, .. } => SyntaxComponent::Unit { from, to, unit, multiplier: m },
        SyntaxComponent::Scalar { scalar, .. } => SyntaxComponent::Scalar { scalar, multiplier: m },
    }
}

impl SyntaxComponent {
    /// Returns true when the syntax component is a group
    pub fn is_group(&self) -> (r: bool)
        ensures
            r == (*self is Group),
    {
        match self {
            SyntaxComponent::Group { .. } => true,
            _ => false,
        }
    }

    /// The multiplier of the component.
    pub fn get_multiplier(&self) -> (m: SyntaxComponentMultiplier)
        ensures
            m == multiplier_of(*self),
    {
        match self {
            SyntaxComponent::Group { multiplier, .. } => *multiplier,
            SyntaxComponent::Function { multiplier, .. } => *multiplier,
            SyntaxComponent::Property { multiplier, .. } => *multiplier,
            SyntaxComponent::GenericKeyword { multiplier, .. } => *multiplier,
            SyntaxComponent::TypeDefinition { multiplier, .. } => *multiplier,
            SyntaxComponent::Unit { multiplier, .. } => *multiplier,
            SyntaxComponent::Literal { multiplier, .. } => *multiplier,
            SyntaxComponent::Inherit { multiplier } => *multiplier,
            SyntaxComponent::Initial { multiplier } => *multiplier,
            SyntaxComponent::Unset { multiplier } => *multiplier,
            SyntaxComponent::Value { multiplier, .. } => *multiplier,
            SyntaxComponent::Scalar { multiplier, .. } => *multiplier,
        }
    }

    /// Replaces the multiplier of the component; everything else stays.
    pub fn update_multiplier(&mut self, new_multiplier: SyntaxComponentMultiplier)
        ensures
            *final(self) == with_multiplier(*old(self), new_multiplier),
    {
        match self {
            SyntaxComponent::Group { multiplier, .. } => {
                *multiplier = new_multiplier;
            },
            SyntaxComponent::Function { multiplier, .. } => {
                *multiplier = new_multiplier;
            },
            SyntaxComponent::Property { multiplier, .. } => {
                *multiplier = new_multiplier;
            },
            SyntaxComponent::GenericKeyword { multiplier, .. } => {
                *multiplier = new_multiplier;
            },
            SyntaxComponent::TypeDefinition { multiplier, .. } => {
                *multiplier = new_multiplier;
            },
            SyntaxComponent::Unit { multiplier, .. } => {
                *multiplier = new_multiplier;
            },
            SyntaxComponent::Literal { multiplier, .. } => {
                *multiplier = new_multiplier;
            },
            SyntaxComponent::Inherit { multiplier } => {
                *multiplier = new_multiplier;
            },
            SyntaxComponent::Initial { multiplier } => {
                *multiplier = new_multiplier;
            },
            SyntaxComponent::Unset { multiplier } => {
                *multiplier = new_multiplier;
            },
            SyntaxComponent::Value { multiplier, .. } => {
                *multiplier = new_multiplier;
            },
            SyntaxComponent::Scalar { multiplier, .. } => {
                *multiplier = new_multiplier;
            },
        }
    }
}

impl SyntaxComponent {
    /// A copy of the component.
    pub fn copy(&self) -> (r: SyntaxComponent)
        ensures
            component_view(r) == component_view(*self),
        decreases self,
    {
        match self {
            SyntaxComponent::GenericKeyword { keyword, multiplier } => SyntaxComponent::GenericKeyword {
                keyword: keyword.clone(),
                multiplier: *multiplier,
            },
            SyntaxComponent::Property { property, multiplier } => SyntaxComponent::Property {
                property: property.clone(),
                multiplier: *multiplier,
            },
            SyntaxComponent::Function { name, arguments, multiplier } => SyntaxComponent::Function {
                name: name.clone(),
                arguments: copy_components(arguments),
                multiplier: *multiplier,
            },
            SyntaxComponent::TypeDefinition { definition, quoted, range, multiplier } => SyntaxComponent::TypeDefinition {
                definition: definition.clone(),
                quoted: *quoted,
                range: *range,
                multiplier: *multiplier,
            },
            SyntaxComponent::Inherit { multiplier } => SyntaxComponent::Inherit { multiplier: *multiplier },
            SyntaxComponent::Initial { multiplier } => SyntaxComponent::Initial { multiplier: *multiplier },
            SyntaxComponent::Unset { multiplier } => SyntaxComponent::Unset { multiplier: *multiplier },
            SyntaxComponent::Literal { literal, multiplier } => SyntaxComponent::Literal {
                literal: literal.clone(),
                multiplier: *multiplier,
            },
            SyntaxComponent::Value { value, multiplier } => SyntaxComponent::Value { value: value.copy(), multiplier: *multiplier },
            SyntaxComponent::Group { components, combinator, multiplier } => SyntaxComponent::Group {
                components: copy_components(components),
                combinator: *combinator,
                multiplier: *multiplier,
            },
            SyntaxComponent::Unit { from, to, unit, multiplier } => {
                let mut u: Vec<String> = Vec::new();
                let mut i: usize = 0;
                while i < unit.len()
                    invariant
                        i <= unit.len(),
                        u@.len() == i,
                        forall|j: int| 0 <= j < i ==> (#[trigger] u@[j])@ == unit@[j]@,
                    decreases unit.len() - i,
                {
                    u.push(unit[i].clone());
                    i += 1;
                }
                assert(strings_view(u@) =~= strings_view(unit@));
                SyntaxComponent::Unit { from: *from, to: *to, unit: u, multiplier: *multiplier }
            },
            SyntaxComponent::Scalar { scalar, multiplier } => SyntaxComponent::Scalar {
                scalar: scalar.clone(),
                multiplier: *multiplier,
            },
        }
    }
}

/// A copy of each component.
pub fn copy_components(v: &Vec<SyntaxComponent>) -> (r: Vec<SyntaxComponent>)
    ensures
        components_view(r@) == components_view(v@),
    decreases v,
{
    let mut r: Vec<SyntaxComponent> = Vec::new();
    let mut i: usize = 0;
    proof {
        lemma_components_view(v@);
        assert(components_view(Seq::<SyntaxComponent>::empty()) =~= components_view(v@).subrange(0, 0));
    }
    while i < v.len()
        invariant
            i <= v.len(),
            components_view(r@) == components_view(v@).subrange(0, i as int),
            components_view(v@).len() == v.len(),
            forall|k: int| 0 <= k < v.len() ==> components_view(v@)[k] == component_view(#[trigger] v@[k]),
        decreases v.len() - i,
    {
        assert(decreases_to!(v => v@[i as int]));
        let x = v[i].copy();
        proof {
            lemma_components_view_push(r@, x);
        }
        r.push(x);
        i += 1;
        assert(components_view(r@) =~= components_view(v@).subrange(0, i as int));
    }
    assert(components_view(v@).subrange(0, v.len() as int) =~= components_view(v@));
    r
}

/// A value definition syntax structure.
pub struct CssSyntax {
    /// Source string of the syntax
    source: String,
}

impl CssSyntax {
    /// Generates a new syntax instance
    pub fn new(source: &str) -> (s: Self)
        ensures
            s.source() == source@,
    {
        CssSyntax { source: source.to_owned() }
    }

    /// The source text of the syntax.
    pub closed spec fn source(&self) -> Seq<char> {
        self.source@
    }

    /// Compiles the syntax into a tree of components: an empty syntax gives a tree without
    /// components; otherwise the whole text must parse as one component list, up to trailing
    /// white space.
    pub fn compile(self) -> (r: Result<CssSyntaxTree, Error>)
        ensures
            compiled_view(r) == compile_result(self.source()),
    {
        if self.source.as_str().is_empty() {
            assert(components_view(Seq::<SyntaxComponent>::empty()) =~= Seq::<ComponentView>::empty());
            return Ok(CssSyntaxTree::new(Vec::new()));
        }
        match parse(self.source.as_str()) {
            Ok((rest, component)) => {
                let left = chars_of(rest.as_str());
                if trim_chars(&left).len() > 0 {
                    let mut m = chars_of("Failed to parse all input (left: '");
                    push_all(&mut m, &left);
                    push_all(&mut m, &chars_of("')"));
                    return Err(Error::CssCompile(string_of(m.as_slice())));
                }
                let mut v: Vec<SyntaxComponent> = Vec::new();
                v.push(component);
                proof {
                    assert(v@.subrange(0, 0) =~= Seq::<SyntaxComponent>::empty());
                    assert(components_view(Seq::<SyntaxComponent>::empty()) =~= Seq::<ComponentView>::empty());
                    assert(components_view(v@) =~= seq![component_view(v@[0])]);
                }
                Ok(CssSyntaxTree::new(v))
            },
            Err(Halt::Rejected) => Err(Error::CssCompile("Parsing Error".to_owned())),
            Err(Halt::Aborted) => Err(Error::CssCompile("Parsing Failure".to_owned())),
        }
    }
}

/// What compiling a syntax gives, as a mathematical value.
pub enum Compiled {
    /// The components of the tree.
    Tree(Seq<ComponentView>),
    /// The message of the compilation error.
    Fails(Seq<char>),
}

/// The result of compiling the syntax `src`.
pub open spec fn compile_result(src: Seq<char>) -> Compiled {
    if src.len() == 0 {
        Compiled::Tree(Seq::empty())
    } else {
        match sp_parse(src) {
            Outcome::Parsed(q, c) => {
                let left = src.subrange(q, src.len() as int);
                if trim(left).len() > 0 {
                    Compiled::Fails("Failed to parse all input (left: '"@ + left + "')"@)
                } else {
                    Compiled::Tree(seq![c])
                }
            },
            Outcome::Rejected => Compiled::Fails("Parsing Error"@),
            Outcome::Aborted => Compiled::Fails("Parsing Failure"@),
        }
    }
}

/// The value of a compilation result.
pub open spec fn compiled_view(r: Result<CssSyntaxTree, Error>) -> Compiled {
    match r {
        Ok(t) => Compiled::Tree(components_view(t.components@)),
        Err(Error::CssCompile(m)) => Compiled::Fails(m@),
    }
}

} // verus!
