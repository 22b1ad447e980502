//! Shorthand properties (such as `margin` or `border`) and how a declaration of one expands
//! into declarations of the properties it stands for.
use vstd::prelude::*;
use crate::css_value::{copy_values, lemma_values_view, value_view, values_view, CssValue, CssValueView};
use crate::property_list::{find_entry, get_property_values, lemma_border_initial_values, property_table_view};
use crate::text::{chars_eq, chars_of};

verus! {

/// The shorthand properties and the properties each one stands for.
pub open spec fn shorthand_table() -> Seq<(Seq<char>, Seq<Seq<char>>)> {
    seq![
        ("background"@, seq!["background-color"@, "background-image"@, "background-repeat"@, "background-attachment"@, "background-position"@, "background-size"@]),
        ("border"@, seq!["border-width"@, "border-style"@, "border-color"@]),
        ("border-radius"@, seq!["border-top-left-radius"@, "border-top-right-radius"@, "border-bottom-right-radius"@, "border-bottom-left-radius"@]),
        ("border-width"@, seq!["border-top-width"@, "border-right-width"@, "border-bottom-width"@, "border-left-width"@]),
        ("border-style"@, seq!["border-top-style"@, "border-right-style"@, "border-bottom-style"@, "border-left-style"@]),
        ("border-color"@, seq!["border-top-color"@, "border-right-color"@, "border-bottom-color"@, "border-left-color"@]),
        ("margin"@, seq!["margin-top"@, "margin-right"@, "margin-bottom"@, "margin-left"@]),
        ("padding"@, seq!["padding-top"@, "padding-right"@, "padding-bottom"@, "padding-left"@]),
        ("font"@, seq!["font-style"@, "font-variant"@, "font-weight"@, "font-size"@, "line-height"@, "font-family"@]),
        ("list-style"@, seq!["list-style-type"@, "list-style-position"@, "list-style-image"@]),
        ("outline"@, seq!["outline-width"@, "outline-style"@, "outline-color"@]),
        ("overflow"@, seq!["overflow-x"@, "overflow-y"@]),
        ("text-decoration"@, seq!["text-decoration-line"@, "text-decoration-style"@, "text-decoration-color"@, "text-decoration-thickness"@, "text-underline-position"@]),
        ("transition"@, seq!["transition-property"@, "transition-duration"@, "transition-timing-function"@, "transition-delay"@]),
        ("border-block-end"@, seq!["border-block-end-width"@, "border-block-end-style"@, "border-block-end-color"@]),
        ("border-block-start"@, seq!["border-block-start-width"@, "border-block-start-style"@, "border-block-start-color"@]),
        ("border-bottom"@, seq!["border-bottom-width"@, "border-bottom-style"@, "border-bottom-color"@]),
        ("border-image"@, seq!["border-image-source"@, "border-image-slice"@, "border-image-width"@, "border-image-outset"@, "border-image-repeat"@]),
        ("border-inline-end"@, seq!["border-inline-end-width"@, "border-inline-end-style"@, "border-inline-end-color"@]),
        ("border-inline-start"@, seq!["border-inline-start-width"@, "border-inline-start-style"@, "border-inline-start-color"@]),
        ("border-left"@, seq!["border-left-width"@, "border-left-style"@, "border-left-color"@]),
        ("border-right"@, seq!["border-right-width"@, "border-right-style"@, "border-right-color"@]),
        ("border-top"@, seq!["border-top-width"@, "border-top-style"@, "border-top-color"@]),
        ("column-rule"@, seq!["column-rule-width"@, "column-rule-style"@, "column-rule-color"@]),
        ("columns"@, seq!["column-width"@, "column-count"@]),
        ("container"@, seq!["container-type"@, "container-name"@]),
        ("contain-intrinsic-size"@, seq!["width"@, "height"@]),
        ("flex"@, seq!["flex-grow"@, "flex-shrink"@, "flex-basis"@]),
        ("flex-flow"@, seq!["flex-direction"@, "flex-wrap"@]),
        ("font-synthesis"@, seq!["font-synthesis-weight"@, "font-synthesis-style"@, "font-synthesis-small-caps"@]),
        ("font-variant"@, seq!["font-variant-ligatures"@, "font-variant-caps"@, "font-variant-numeric"@, "font-variant-east-asian"@]),
        ("gap"@, seq!["row-gap"@, "column-gap"@]),
        ("grid"@, seq!["grid-template-rows"@, "grid-template-columns"@, "grid-template-areas"@, "grid-auto-rows"@, "grid-auto-columns"@, "grid-auto-flow"@]),
        ("grid-area"@, seq!["grid-row-start"@, "grid-column-start"@, "grid-row-end"@, "grid-column-end"@]),
        ("grid-column"@, seq!["grid-column-start"@, "grid-column-end"@]),
        ("grid-row"@, seq!["grid-row-start"@, "grid-row-end"@]),
        ("grid-template"@, seq!["grid-template-columns"@, "grid-template-rows"@, "grid-template-areas"@]),
        ("inset"@, seq!["top"@, "right"@, "bottom"@, "left"@]),
        ("mask"@, seq!["mask-image"@, "mask-mode"@, "mask-position"@, "mask-size"@, "mask-repeat"@, "mask-origin"@, "mask-clip"@]),
        ("mask-border"@, seq!["mask-border-source"@, "mask-border-slice"@, "mask-border-width"@, "mask-border-outset"@, "mask-border-repeat"@, "mask-border-mode"@]),
        ("offset"@, seq!["offset-position"@, "offset-path"@, "offset-distance"@, "offset-rotate"@, "offset-anchor"@]),
        ("place-content"@, seq!["align-content"@, "justify-content"@]),
        ("place-items"@, seq!["align-items"@, "justify-items"@]),
        ("place-self"@, seq!["align-self"@, "justify-self"@]),
        ("scroll-margin"@, seq!["scroll-margin-top"@, "scroll-margin-right"@, "scroll-margin-bottom"@, "scroll-margin-left"@]),
        ("scroll-padding"@, seq!["scroll-padding-top"@, "scroll-padding-right"@, "scroll-padding-bottom"@, "scroll-padding-left"@]),
        ("scroll-timeline"@, seq!["timeline-name"@, "timeline-axis"@, "timeline-range"@, "timeline-progress"@]),
        ("text-emphasis"@, seq!["text-emphasis-style"@, "text-emphasis-color"@]),
    ]
}

/// The (name, expanded names) pairs of a list of entries.
pub open spec fn shorthand_view(v: Seq<(&'static str, Vec<&'static str>)>) -> Seq<(Seq<char>, Seq<Seq<char>>)> {
    v.map_values(|e: (&'static str, Vec<&'static str>)| (e.0@, e.1@.map_values(|n: &'static str| n@)))
}

/// The shorthand properties and the properties each one stands for.
#[verifier::rlimit(50)]
pub fn shorthand_properties() -> (v: Vec<(&'static str, Vec<&'static str>)>)
    ensures
        shorthand_view(v@) == shorthand_table(),
{
    let v = vec![
        ("background", vec!["background-color", "background-image", "background-repeat", "background-attachment", "background-position", "background-size"]),
        ("border", vec!["border-width", "border-style", "border-color"]),
        ("border-radius", vec!["border-top-left-radius", "border-top-right-radius", "border-bottom-right-radius", "border-bottom-left-radius"]),
        ("border-width", vec!["border-top-width", "border-right-width", "border-bottom-width", "border-left-width"]),
        ("border-style", vec!["border-top-style", "border-right-style", "border-bottom-style", "border-left-style"]),
        ("border-color", vec!["border-top-color", "border-right-color", "border-bottom-color", "border-left-color"]),
        ("margin", vec!["margin-top", "margin-right", "margin-bottom", "margin-left"]),
        ("padding", vec!["padding-top", "padding-right", "padding-bottom", "padding-left"]),
        ("font", vec!["font-style", "font-variant", "font-weight", "font-size", "line-height", "font-family"]),
        ("list-style", vec!["list-style-type", "list-style-position", "list-style-image"]),
        ("outline", vec!["outline-width", "outline-style", "outline-color"]),
        ("overflow", vec!["overflow-x", "overflow-y"]),
        ("text-decoration", vec!["text-decoration-line", "text-decoration-style", "text-decoration-color", "text-decoration-thickness", "text-underline-position"]),
        ("transition", vec!["transition-property", "transition-duration", "transition-timing-function", "transition-delay"]),
        ("border-block-end", vec!["border-block-end-width", "border-block-end-style", "border-block-end-color"]),
        ("border-block-start", vec!["border-block-start-width", "border-block-start-style", "border-block-start-color"]),
        ("border-bottom", vec!["border-bottom-width", "border-bottom-style", "border-bottom-color"]),
        ("border-image", vec!["border-image-source", "border-image-slice", "border-image-width", "border-image-outset", "border-image-repeat"]),
        ("border-inline-end", vec!["border-inline-end-width", "border-inline-end-style", "border-inline-end-color"]),
        ("border-inline-start", vec!["border-inline-start-width", "border-inline-start-style", "border-inline-start-color"]),
        ("border-left", vec!["border-left-width", "border-left-style", "border-left-color"]),
        ("border-right", vec!["border-right-width", "border-right-style", "border-right-color"]),
        ("border-top", vec!["border-top-width", "border-top-style", "border-top-color"]),
        ("column-rule", vec!["column-rule-width", "column-rule-style", "column-rule-color"]),
        ("columns", vec!["column-width", "column-count"]),
        ("container", vec!["container-type", "container-name"]),
        ("contain-intrinsic-size", vec!["width", "height"]),
        ("flex", vec!["flex-grow", "flex-shrink", "flex-basis"]),
        ("flex-flow", vec!["flex-direction", "flex-wrap"]),
        ("font-synthesis", vec!["font-synthesis-weight", "font-synthesis-style", "font-synthesis-small-caps"]),
        ("font-variant", vec!["font-variant-ligatures", "font-variant-caps", "font-variant-numeric", "font-variant-east-asian"]),
        ("gap", vec!["row-gap", "column-gap"]),
        ("grid", vec!["grid-template-rows", "grid-template-columns", "grid-template-areas", "grid-auto-rows", "grid-auto-columns", "grid-auto-flow"]),
        ("grid-area", vec!["grid-row-start", "grid-column-start", "grid-row-end", "grid-column-end"]),
        ("grid-column", vec!["grid-column-start", "grid-column-end"]),
        ("grid-row", vec!["grid-row-start", "grid-row-end"]),
        ("grid-template", vec!["grid-template-columns", "grid-template-rows", "grid-template-areas"]),
        ("inset", vec!["top", "right", "bottom", "left"]),
        ("mask", vec!["mask-image", "mask-mode", "mask-position", "mask-size", "mask-repeat", "mask-origin", "mask-clip"]),
        ("mask-border", vec!["mask-border-source", "mask-border-slice", "mask-border-width", "mask-border-outset", "mask-border-repeat", "mask-border-mode"]),
        ("offset", vec!["offset-position", "offset-path", "offset-distance", "offset-rotate", "offset-anchor"]),
        ("place-content", vec!["align-content", "justify-content"]),
        ("place-items", vec!["align-items", "justify-items"]),
        ("place-self", vec!["align-self", "justify-self"]),
        ("scroll-margin", vec!["scroll-margin-top", "scroll-margin-right", "scroll-margin-bottom", "scroll-margin-left"]),
        ("scroll-padding", vec!["scroll-padding-top", "scroll-padding-right", "scroll-padding-bottom", "scroll-padding-left"]),
        ("scroll-timeline", vec!["timeline-name", "timeline-axis", "timeline-range", "timeline-progress"]),
        ("text-emphasis", vec!["text-emphasis-style", "text-emphasis-color"]),
    ];
    assert(shorthand_view(v@) =~~= shorthand_table());
    v
}

/// A declaration: a property, its values, and whether it is `!important`.
#[derive(Debug, PartialEq)]
pub struct CssDeclaration {
    /// The property name
    pub property: String,
    /// The values of the property
    pub values: Vec<CssValue>,
    /// Whether the declaration is `!important`
    pub important: bool,
}

/// The value of a declaration.
pub struct DeclarationView {
    pub property: Seq<char>,
    pub values: Seq<CssValueView>,
    pub important: bool,
}

impl View for CssDeclaration {
    type V = DeclarationView;

    open spec fn view(&self) -> DeclarationView {
        DeclarationView { property: self.property@, values: values_view(self.values@), important: self.important }
    }
}

/// The values of a sequence of declarations.
pub open spec fn declarations_view(v: Seq<CssDeclaration>) -> Seq<DeclarationView> {
    v.map_values(|d: CssDeclaration| d@)
}

/// A declaration of one value.
pub open spec fn single(property: Seq<char>, value: CssValueView, important: bool) -> DeclarationView {
    DeclarationView { property, values: seq![value], important }
}

/// The four values of `margin` (top, right, bottom, left) from one to four given values.
pub open spec fn margin_values(v: Seq<CssValueView>) -> Seq<CssValueView> {
    if v.len() == 1 {
        seq![v[0], v[0], v[0], v[0]]
    } else if v.len() == 2 {
        seq![v[0], v[1], v[0], v[1]]
    } else if v.len() == 3 {
        seq![v[0], v[1], v[2], v[1]]
    } else {
        seq![v[0], v[1], v[2], v[3]]
    }
}

/// The kinds of values that `border` sets.
#[derive(Debug, Clone, Copy, PartialEq, Eq, Structural)]
pub enum BorderKind {
    /// A string sets the style
    Style,
    /// A number with a unit sets the width
    Width,
    /// A color sets the color
    Color,
}

/// The value sets that part of a border.
pub open spec fn is_kind(v: CssValueView, k: BorderKind) -> bool {
    match k {
        BorderKind::Style => v is String,
        BorderKind::Width => v is Unit,
        BorderKind::Color => v is Color,
    }
}

/// The last of the first `n` values of `v` that sets that part of a border.
pub open spec fn last_of_kind(v: Seq<CssValueView>, n: int, k: BorderKind) -> Option<CssValueView>
    decreases n,
{
    if n <= 0 {
        None
    } else if is_kind(v[n - 1], k) {
        Some(v[n - 1])
    } else {
        last_of_kind(v, n - 1, k)
    }
}

/// One of the declarations that `border` expands to: the last value of its kind, or the
/// property's initial value (which is never important).
pub open spec fn border_part(d: DeclarationView, property: Seq<char>, k: BorderKind, initial: CssValueView) -> DeclarationView {
    match last_of_kind(d.values, d.values.len() as int, k) {
        Some(v) => single(property, v, d.important),
        None => single(property, initial, false),
    }
}

/// The declarations that a declaration expands to: `margin` into its four sides, `border`
/// into style, width and color; any other declaration stands for itself.
pub open spec fn expand(d: DeclarationView) -> Seq<DeclarationView> {
    if d.property == "margin"@ {
        let m = margin_values(d.values);
        seq![
            single("margin-top"@, m[0], d.important),
            single("margin-left"@, m[1], d.important),
            single("margin-bottom"@, m[2], d.important),
            single("margin-right"@, m[3], d.important),
        ]
    } else if d.property == "border"@ {
        seq![
            border_part(d, "border-style"@, BorderKind::Style, CssValueView::String("none"@)),
            border_part(d, "border-width"@, BorderKind::Width, CssValueView::String("initial"@)),
            border_part(d, "border-color"@, BorderKind::Color, CssValueView::String("initial"@)),
        ]
    } else {
        seq![d]
    }
}

/// Law: `margin` with one to four values gives, in order, `margin-top`, `margin-left`,
/// `margin-bottom` and `margin-right`, each one value with the importance of the declaration:
/// the top is the first value; the second side is the second value, or the first; the bottom
/// the third, or the first; the last side the fourth, or else the same as the second side. So
/// with fewer than three values the bottom is the top, and with fewer than four the two sides
/// are alike.
pub proof fn law_margin_sides(d: DeclarationView)
    requires
        d.property == "margin"@,
        1 <= d.values.len() <= 4,
    ensures
        ({
            let v = d.values;
            let n = v.len();
            let e = expand(d);
            &&& e.len() == 4
            &&& e[0] == single("margin-top"@, v[0], d.important)
            &&& e[1] == single("margin-left"@, if n >= 2 { v[1] } else { v[0] }, d.important)
            &&& e[2] == single("margin-bottom"@, if n >= 3 { v[2] } else { v[0] }, d.important)
            &&& e[3] == single("margin-right"@, if n == 4 { v[3] } else if n >= 2 { v[1] } else { v[0] }, d.important)
            &&& n < 3 ==> e[2].values == e[0].values
            &&& n < 4 ==> e[3].values == e[1].values
        }),
{
}

/// No two values of `v` set the same part of a border.
pub open spec fn one_of_each_kind(v: Seq<CssValueView>) -> bool {
    forall|i: int, j: int, k: BorderKind|
        0 <= i < v.len() && 0 <= j < v.len() && #[trigger] is_kind(v[i], k) && #[trigger] is_kind(v[j], k) ==> i == j
}

/// What `last_of_kind` finds is a value of that kind among the first `n`; where it finds
/// none, there is none.
proof fn lemma_last_of_kind(v: Seq<CssValueView>, n: int, k: BorderKind)
    requires
        n <= v.len(),
    ensures
        last_of_kind(v, n, k) matches Some(x) ==> exists|i: int| 0 <= i < n && v[i] == x && #[trigger] is_kind(v[i], k),
        last_of_kind(v, n, k) is None ==> forall|i: int| 0 <= i < n ==> !#[trigger] is_kind(v[i], k),
    decreases n,
{
    if n > 0 && !is_kind(v[n - 1], k) {
        lemma_last_of_kind(v, n - 1, k);
    }
}

/// With one value of each kind at most, the part of a border is the same for any two lists
/// of the same values.
proof fn lemma_last_of_kind_same_values(a: Seq<CssValueView>, b: Seq<CssValueView>, k: BorderKind)
    requires
        one_of_each_kind(a),
        one_of_each_kind(b),
        forall|x: CssValueView| a.contains(x) <==> b.contains(x),
    ensures
        last_of_kind(a, a.len() as int, k) == last_of_kind(b, b.len() as int, k),
{
    lemma_last_of_kind(a, a.len() as int, k);
    lemma_last_of_kind(b, b.len() as int, k);
    match last_of_kind(a, a.len() as int, k) {
        Some(x) => {
            let i = choose|i: int| 0 <= i < a.len() && a[i] == x && #[trigger] is_kind(a[i], k);
            assert(a.contains(x));
            let j = choose|j: int| 0 <= j < b.len() && b[j] == x;
            assert(is_kind(b[j], k));
            if let Some(y) = last_of_kind(b, b.len() as int, k) {
                let m = choose|m: int| 0 <= m < b.len() && b[m] == y && #[trigger] is_kind(b[m], k);
                assert(m == j);
            }
        },
        None => {
            if let Some(y) = last_of_kind(b, b.len() as int, k) {
                let m = choose|m: int| 0 <= m < b.len() && b[m] == y && #[trigger] is_kind(b[m], k);
                assert(b.contains(y));
                let i = choose|i: int| 0 <= i < a.len() && a[i] == y;
                assert(is_kind(a[i], k));
            }
        },
    }
}

/// Law: `border` expands the same whatever the order of its values, where no two of them set
/// the same part of the border.
pub proof fn law_border_values_in_any_order(d1: DeclarationView, d2: DeclarationView)
    requires
        d1.property == "border"@,
        d2.property == "border"@,
        d1.important == d2.important,
        one_of_each_kind(d1.values),
        one_of_each_kind(d2.values),
        forall|x: CssValueView| d1.values.contains(x) <==> d2.values.contains(x),
    ensures
        expand(d1) == expand(d2),
{
    lemma_last_of_kind_same_values(d1.values, d2.values, BorderKind::Style);
    lemma_last_of_kind_same_values(d1.values, d2.values, BorderKind::Width);
    lemma_last_of_kind_same_values(d1.values, d2.values, BorderKind::Color);
    assert(border_part(d1, "border-style"@, BorderKind::Style, CssValueView::String("none"@))
        == border_part(d2, "border-style"@, BorderKind::Style, CssValueView::String("none"@)));
    assert(border_part(d1, "border-width"@, BorderKind::Width, CssValueView::String("initial"@))
        == border_part(d2, "border-width"@, BorderKind::Width, CssValueView::String("initial"@)));
    assert(border_part(d1, "border-color"@, BorderKind::Color, CssValueView::String("initial"@))
        == border_part(d2, "border-color"@, BorderKind::Color, CssValueView::String("initial"@)));
    reveal_strlit("margin");
    reveal_strlit("border");
    assert("border"@ != "margin"@) by {
        assert("border"@[0] != "margin"@[0]);
    }
    assert(expand(d1) =~= expand(d2));
}

/// The declarations that can be expanded: `margin` with one to four values, `border` with
/// strings, units and colors only.
pub open spec fn expandable(d: DeclarationView) -> bool {
    &&& d.property == "margin"@ ==> 1 <= d.values.len() <= 4
    &&& d.property == "border"@ ==> forall|i: int| 0 <= i < d.values.len() ==> (is_kind(#[trigger] d.values[i], BorderKind::Style) || is_kind(d.values[i], BorderKind::Width) || is_kind(d.values[i], BorderKind::Color))
}

/// Returns the declaration of the initial value of a property, when the property table has
/// the property.
pub fn get_initial_values(name: &str) -> (r: Option<CssDeclaration>)
    ensures
        match r {
            Some(d) => find_entry(property_table_view(), name@) matches Some(e) && d@ == single(name@, e.1, false),
            None => find_entry(property_table_view(), name@) is None,
        },
{
    match get_property_values(name) {
        Some(entry) => {
            let mut values: Vec<CssValue> = Vec::new();
            values.push(entry.initial);
            proof {
                lemma_values_view(values@);
                assert(values_view(values@) =~= seq![entry.initial@]);
            }
            Some(CssDeclaration { property: name.to_owned(), values, important: false })
        },
        None => None,
    }
}

/// A declaration of one value.
fn single_declaration(property: &str, value: CssValue, important: bool) -> (d: CssDeclaration)
    ensures
        d@ == single(property@, value@, important),
{
    let mut values: Vec<CssValue> = Vec::new();
    values.push(value);
    proof {
        lemma_values_view(values@);
        assert(values_view(values@) =~= seq![value@]);
    }
    CssDeclaration { property: property.to_owned(), values, important }
}

/// Whether the value sets the given part of a border.
fn value_is_kind(v: &CssValue, k: BorderKind) -> (r: bool)
    ensures
        r == is_kind(v@, k),
{
    match k {
        BorderKind::Style => match v {
            CssValue::String(_) => true,
            _ => false,
        },
        BorderKind::Width => match v {
            CssValue::Unit(_, _) => true,
            _ => false,
        },
        BorderKind::Color => match v {
            CssValue::Color(_) => true,
            _ => false,
        },
    }
}

/// The declaration that `border` sets for one of its parts.
fn border_declaration(declaration: &CssDeclaration, property: &str, k: BorderKind) -> (r: CssDeclaration)
    requires
        property@ == "border-style"@ || property@ == "border-width"@ || property@ == "border-color"@,
    ensures
        r@ == border_part(declaration@, property@, k, (find_entry(property_table_view(), property@)->0).1),
{
    let values = &declaration.values;
    proof { lemma_values_view(values@); }
    let mut last: Option<usize> = None;
    let mut i: usize = 0;
    while i < values.len()
        invariant
            i <= values.len(),
            values_view(values@).len() == values.len(),
            forall|j: int| 0 <= j < values.len() ==> values_view(values@)[j] == value_view(#[trigger] values@[j]),
            match last {
                Some(j) => j < i && last_of_kind(values_view(values@), i as int, k) == Some(values_view(values@)[j as int]),
                None => last_of_kind(values_view(values@), i as int, k) is None,
            },
        decreases values.len() - i,
    {
        if value_is_kind(&values[i], k) {
            last = Some(i);
        }
        i += 1;
    }
    proof { lemma_border_initial_values(); }
    match last {
        Some(j) => single_declaration(property, values[j].copy(), declaration.important),
        None => {
            let initial = get_initial_values(property);
            match initial {
                Some(d) => d,
                None => {
                    proof { assert(false); }
                    single_declaration(property, CssValue::Zero, false)
                },
            }
        },
    }
}

/// Converts a shorthand property to its expanded properties by making sure that the values
/// are set to the correct properties: `margin` into its four sides, `border` into style,
/// width and color; any other declaration is returned as it is.
pub fn convert_shorthand_properties(declaration: &CssDeclaration) -> (r: Vec<CssDeclaration>)
    requires
        expandable(declaration@),
    ensures
        declarations_view(r@) == expand(declaration@),
{
    let property = chars_of(declaration.property.as_str());
    let mut declarations: Vec<CssDeclaration> = Vec::new();
    if chars_eq(&property, &chars_of("margin")) {
        let v = &declaration.values;
        proof { lemma_values_view(v@); }
        let n = v.len();
        let (a, b, c, d): (usize, usize, usize, usize) = if n == 1 {
            (0, 0, 0, 0)
        } else if n == 2 {
            (0, 1, 0, 1)
        } else if n == 3 {
            (0, 1, 2, 1)
        } else {
            (0, 1, 2, 3)
        };
        let important = declaration.important;
        declarations.push(single_declaration("margin-top", v[a].copy(), important));
        declarations.push(single_declaration("margin-left", v[b].copy(), important));
        declarations.push(single_declaration("margin-bottom", v[c].copy(), important));
        declarations.push(single_declaration("margin-right", v[d].copy(), important));
        proof {
            let m = margin_values(declaration@.values);
            assert(declarations@.len() == 4);
            assert(declarations_view(declarations@)[0] == single("margin-top"@, m[0], important));
            assert(declarations_view(declarations@)[1] == single("margin-left"@, m[1], important));
            assert(declarations_view(declarations@)[2] == single("margin-bottom"@, m[2], important));
            assert(declarations_view(declarations@)[3] == single("margin-right"@, m[3], important));
            assert(declarations_view(declarations@) =~= expand(declaration@));
        }
    } else if chars_eq(&property, &chars_of("border")) {
        declarations.push(border_declaration(declaration, "border-style", BorderKind::Style));
        declarations.push(border_declaration(declaration, "border-width", BorderKind::Width));
        declarations.push(border_declaration(declaration, "border-color", BorderKind::Color));
        proof {
            lemma_border_initial_values();
            assert(declarations_view(declarations@) =~= expand(declaration@));
        }
    } else {
        declarations.push(CssDeclaration {
            property: declaration.property.clone(),
            values: copy_values(&declaration.values),
            important: declaration.important,
        });
        assert(declarations_view(declarations@) =~= expand(declaration@));
    }
    declarations
}

} // verus!
