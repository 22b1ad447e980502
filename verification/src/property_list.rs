//! The CSS 2.1 property table: each property's initial value and whether it is inherited
//! (values from <https://www.w3.org/TR/CSS21/propidx.html>).
use vstd::prelude::*;
use crate::css_value::{CssValue, CssValueView, Number};
use crate::text::{chars_eq, chars_of};

verus! {

/// A property, its initial value, and whether it is inherited.
pub struct PropertyTableEntry {
    pub name: &'static str,
    pub initial: CssValue,
    pub inheritable: bool,
}

/// The table, as (name, initial value, inherited) triples.
pub open spec fn property_table_view() -> Seq<(Seq<char>, CssValueView, bool)> {
    seq![
        ("azimuth"@, CssValueView::String("center"@), true),
        ("background-attachment"@, CssValueView::String("scroll"@), false),
        ("background-color"@, CssValueView::String("transparent"@), false),
        ("background-image"@, CssValueView::String("none"@), false),
        ("background-position"@, CssValueView::String("0% 0%"@), false),
        ("background-repeat"@, CssValueView::String("repeat"@), false),
        ("border-collapse"@, CssValueView::String("separate"@), false),
        ("border-color"@, CssValueView::String("initial"@), false),
        ("border-spacing"@, CssValueView::Number("0"@), false),
        ("border-style"@, CssValueView::String("none"@), false),
        ("border-top"@, CssValueView::String("initial"@), false),
        ("border-right"@, CssValueView::String("initial"@), false),
        ("border-bottom"@, CssValueView::String("initial"@), false),
        ("border-left"@, CssValueView::String("initial"@), false),
        ("border-top-color"@, CssValueView::String("initial"@), false),
        ("border-right-color"@, CssValueView::String("initial"@), false),
        ("border-bottom-color"@, CssValueView::String("initial"@), false),
        ("border-left-color"@, CssValueView::String("initial"@), false),
        ("border-top-style"@, CssValueView::String("none"@), false),
        ("border-right-style"@, CssValueView::String("none"@), false),
        ("border-bottom-style"@, CssValueView::String("none"@), false),
        ("border-left-style"@, CssValueView::String("none"@), false),
        ("border-top-width"@, CssValueView::String("medium"@), false),
        ("border-right-width"@, CssValueView::String("medium"@), false),
        ("border-bottom-width"@, CssValueView::String("medium"@), false),
        ("border-left-width"@, CssValueView::String("medium"@), false),
        ("border-width"@, CssValueView::String("initial"@), false),
        ("bottom"@, CssValueView::String("auto"@), false),
        ("caption-side"@, CssValueView::String("top"@), false),
        ("clear"@, CssValueView::String("none"@), false),
        ("clip"@, CssValueView::String("auto"@), false),
        ("color"@, CssValueView::String("initial"@), true),
        ("content"@, CssValueView::String("normal"@), false),
        ("counter-increment"@, CssValueView::String("none"@), false),
        ("counter-reset"@, CssValueView::String("none"@), false),
        ("cue"@, CssValueView::String("none"@), false),
        ("cue-after"@, CssValueView::String("none"@), false),
        ("cue-before"@, CssValueView::String("none"@), false),
        ("cursor"@, CssValueView::String("auto"@), false),
        ("direction"@, CssValueView::String("ltr"@), true),
        ("display"@, CssValueView::String("inline"@), false),
        ("elevation"@, CssValueView::String("level"@), false),
        ("empty-cells"@, CssValueView::String("show"@), false),
        ("float"@, CssValueView::String("none"@), false),
        ("font"@, CssValueView::String("initial"@), false),
        ("font-family"@, CssValueView::String("initial"@), false),
        ("font-size"@, CssValueView::String("medium"@), true),
        ("font-style"@, CssValueView::String("normal"@), true),
        ("font-variant"@, CssValueView::String("normal"@), true),
        ("font-weight"@, CssValueView::String("normal"@), true),
        ("height"@, CssValueView::String("auto"@), false),
        ("left"@, CssValueView::String("auto"@), false),
        ("letter-spacing"@, CssValueView::String("normal"@), true),
        ("line-height"@, CssValueView::String("normal"@), true),
        ("list-style"@, CssValueView::String("initial"@), false),
        ("list-style-image"@, CssValueView::String("none"@), false),
        ("list-style-position"@, CssValueView::String("outside"@), false),
        ("list-style-type"@, CssValueView::String("disc"@), false),
        ("margin"@, CssValueView::Number("0"@), false),
        ("margin-top"@, CssValueView::Number("0"@), false),
        ("margin-right"@, CssValueView::Number("0"@), false),
        ("margin-bottom"@, CssValueView::Number("0"@), false),
        ("margin-left"@, CssValueView::Number("0"@), false),
        ("max-height"@, CssValueView::String("none"@), false),
        ("max-width"@, CssValueView::String("none"@), false),
        ("min-height"@, CssValueView::Number("0"@), false),
        ("min-width"@, CssValueView::Number("0"@), false),
        ("orphans"@, CssValueView::Number("2"@), true),
        ("outline"@, CssValueView::String("initial"@), false),
        ("outline-color"@, CssValueView::String("invert"@), false),
        ("outline-style"@, CssValueView::String("none"@), false),
        ("outline-width"@, CssValueView::String("medium"@), false),
        ("overflow"@, CssValueView::String("visible"@), false),
        ("padding"@, CssValueView::Number("0"@), false),
        ("padding-top"@, CssValueView::Number("0"@), false),
        ("padding-right"@, CssValueView::Number("0"@), false),
        ("padding-bottom"@, CssValueView::Number("0"@), false),
        ("padding-left"@, CssValueView::Number("0"@), false),
        ("page-break-after"@, CssValueView::String("auto"@), false),
        ("page-break-before"@, CssValueView::String("auto"@), false),
        ("page-break-inside"@, CssValueView::String("auto"@), false),
        ("pause-after"@, CssValueView::Number("0"@), false),
        ("pause-before"@, CssValueView::Number("0"@), false),
        ("pitch"@, CssValueView::String("medium"@), false),
        ("pitch-range"@, CssValueView::Number("50"@), false),
        ("play-during"@, CssValueView::String("auto"@), false),
        ("position"@, CssValueView::String("static"@), false),
        ("quotes"@, CssValueView::String("initial"@), false),
        ("richness"@, CssValueView::Number("50"@), false),
        ("right"@, CssValueView::String("auto"@), false),
        ("speak"@, CssValueView::String("normal"@), false),
        ("speak-header"@, CssValueView::String("once"@), false),
        ("speak-numeral"@, CssValueView::String("continuous"@), false),
        ("speak-punctuation"@, CssValueView::String("none"@), false),
        ("speech-rate"@, CssValueView::String("medium"@), false),
        ("stress"@, CssValueView::Number("50"@), false),
        ("table-layout"@, CssValueView::String("auto"@), false),
        ("text-align"@, CssValueView::String("initial"@), true),
        ("text-decoration"@, CssValueView::String("none"@), true),
        ("text-indent"@, CssValueView::Number("0"@), true),
        ("text-transform"@, CssValueView::String("none"@), true),
        ("top"@, CssValueView::String("auto"@), false),
        ("unicode-bidi"@, CssValueView::String("normal"@), true),
        ("vertical-align"@, CssValueView::String("baseline"@), true),
        ("visibility"@, CssValueView::String("visible"@), false),
        ("voice-family"@, CssValueView::String("initial"@), false),
        ("volume"@, CssValueView::String("medium"@), false),
        ("white-space"@, CssValueView::String("normal"@), true),
        ("widows"@, CssValueView::Number("2"@), true),
        ("width"@, CssValueView::String("auto"@), false),
        ("word-spacing"@, CssValueView::String("normal"@), true),
        ("z-index"@, CssValueView::String("auto"@), false)
    ]
}

/// The (name, initial value, inherited) triples of a list of entries.
pub open spec fn table_view(v: Seq<PropertyTableEntry>) -> Seq<(Seq<char>, CssValueView, bool)> {
    v.map_values(|e: PropertyTableEntry| (e.name@, e.initial@, e.inheritable))
}

/// The property table.
#[verifier::rlimit(50)]
pub fn property_table() -> (v: Vec<PropertyTableEntry>)
    ensures
        table_view(v@) == property_table_view(),
{
    let v = vec![
        PropertyTableEntry { name: "azimuth", initial: CssValue::String("center".to_owned()), inheritable: true },
        PropertyTableEntry { name: "background-attachment", initial: CssValue::String("scroll".to_owned()), inheritable: false },
        PropertyTableEntry { name: "background-color", initial: CssValue::String("transparent".to_owned()), inheritable: false },
        PropertyTableEntry { name: "background-image", initial: CssValue::String("none".to_owned()), inheritable: false },
        PropertyTableEntry { name: "background-position", initial: CssValue::String("0% 0%".to_owned()), inheritable: false },
        PropertyTableEntry { name: "background-repeat", initial: CssValue::String("repeat".to_owned()), inheritable: false },
        PropertyTableEntry { name: "border-collapse", initial: CssValue::String("separate".to_owned()), inheritable: false },
        PropertyTableEntry { name: "border-color", initial: CssValue::String("initial".to_owned()), inheritable: false },
        PropertyTableEntry { name: "border-spacing", initial: CssValue::Number(Number { text: "0".to_owned() }), inheritable: false },
        PropertyTableEntry { name: "border-style", initial: CssValue::String("none".to_owned()), inheritable: false },
        PropertyTableEntry { name: "border-top", initial: CssValue::String("initial".to_owned()), inheritable: false },
        PropertyTableEntry { name: "border-right", initial: CssValue::String("initial".to_owned()), inheritable: false },
        PropertyTableEntry { name: "border-bottom", initial: CssValue::String("initial".to_owned()), inheritable: false },
        PropertyTableEntry { name: "border-left", initial: CssValue::String("initial".to_owned()), inheritable: false },
        PropertyTableEntry { name: "border-top-color", initial: CssValue::String("initial".to_owned()), inheritable: false },
        PropertyTableEntry { name: "border-right-color", initial: CssValue::String("initial".to_owned()), inheritable: false },
        PropertyTableEntry { name: "border-bottom-color", initial: CssValue::String("initial".to_owned()), inheritable: false },
        PropertyTableEntry { name: "border-left-color", initial: CssValue::String("initial".to_owned()), inheritable: false },
        PropertyTableEntry { name: "border-top-style", initial: CssValue::String("none".to_owned()), inheritable: false },
        PropertyTableEntry { name: "border-right-style", initial: CssValue::String("none".to_owned()), inheritable: false },
        PropertyTableEntry { name: "border-bottom-style", initial: CssValue::String("none".to_owned()), inheritable: false },
        PropertyTableEntry { name: "border-left-style", initial: CssValue::String("none".to_owned()), inheritable: false },
        PropertyTableEntry { name: "border-top-width", initial: CssValue::String("medium".to_owned()), inheritable: false },
        PropertyTableEntry { name: "border-right-width", initial: CssValue::String("medium".to_owned()), inheritable: false },
        PropertyTableEntry { name: "border-bottom-width", initial: CssValue::String("medium".to_owned()), inheritable: false },
        PropertyTableEntry { name: "border-left-width", initial: CssValue::String("medium".to_owned()), inheritable: false },
        PropertyTableEntry { name: "border-width", initial: CssValue::String("initial".to_owned()), inheritable: false },
        PropertyTableEntry { name: "bottom", initial: CssValue::String("auto".to_owned()), inheritable: false },
        PropertyTableEntry { name: "caption-side", initial: CssValue::String("top".to_owned()), inheritable: false },
        PropertyTableEntry { name: "clear", initial: CssValue::String("none".to_owned()), inheritable: false },
        PropertyTableEntry { name: "clip", initial: CssValue::String("auto".to_owned()), inheritable: false },
        PropertyTableEntry { name: "color", initial: CssValue::String("initial".to_owned()), inheritable: true },
        PropertyTableEntry { name: "content", initial: CssValue::String("normal".to_owned()), inheritable: false },
        PropertyTableEntry { name: "counter-increment", initial: CssValue::String("none".to_owned()), inheritable: false },
        PropertyTableEntry { name: "counter-reset", initial: CssValue::String("none".to_owned()), inheritable: false },
        PropertyTableEntry { name: "cue", initial: CssValue::String("none".to_owned()), inheritable: false },
        PropertyTableEntry { name: "cue-after", initial: CssValue::String("none".to_owned()), inheritable: false },
        PropertyTableEntry { name: "cue-before", initial: CssValue::String("none".to_owned()), inheritable: false },
        PropertyTableEntry { name: "cursor", initial: CssValue::String("auto".to_owned()), inheritable: false },
        PropertyTableEntry { name: "direction", initial: CssValue::String("ltr".to_owned()), inheritable: true },
        PropertyTableEntry { name: "display", initial: CssValue::String("inline".to_owned()), inheritable: false },
        PropertyTableEntry { name: "elevation", initial: CssValue::String("level".to_owned()), inheritable: false },
        PropertyTableEntry { name: "empty-cells", initial: CssValue::String("show".to_owned()), inheritable: false },
        PropertyTableEntry { name: "float", initial: CssValue::String("none".to_owned()), inheritable: false },
        PropertyTableEntry { name: "font", initial: CssValue::String("initial".to_owned()), inheritable: false },
        PropertyTableEntry { name: "font-family", initial: CssValue::String("initial".to_owned()), inheritable: false },
        PropertyTableEntry { name: "font-size", initial: CssValue::String("medium".to_owned()), inheritable: true },
        PropertyTableEntry { name: "font-style", initial: CssValue::String("normal".to_owned()), inheritable: true },
        PropertyTableEntry { name: "font-variant", initial: CssValue::String("normal".to_owned()), inheritable: true },
        PropertyTableEntry { name: "font-weight", initial: CssValue::String("normal".to_owned()), inheritable: true },
        PropertyTableEntry { name: "height", initial: CssValue::String("auto".to_owned()), inheritable: false },
        PropertyTableEntry { name: "left", initial: CssValue::String("auto".to_owned()), inheritable: false },
        PropertyTableEntry { name: "letter-spacing", initial: CssValue::String("normal".to_owned()), inheritable: true },
        PropertyTableEntry { name: "line-height", initial: CssValue::String("normal".to_owned()), inheritable: true },
        PropertyTableEntry { name: "list-style", initial: CssValue::String("initial".to_owned()), inheritable: false },
        PropertyTableEntry { name: "list-style-image", initial: CssValue::String("none".to_owned()), inheritable: false },
        PropertyTableEntry { name: "list-style-position", initial: CssValue::String("outside".to_owned()), inheritable: false },
        PropertyTableEntry { name: "list-style-type", initial: CssValue::String("disc".to_owned()), inheritable: false },
        PropertyTableEntry { name: "margin", initial: CssValue::Number(Number { text: "0".to_owned() }), inheritable: false },
        PropertyTableEntry { name: "margin-top", initial: CssValue::Number(Number { text: "0".to_owned() }), inheritable: false },
        PropertyTableEntry { name: "margin-right", initial: CssValue::Number(Number { text: "0".to_owned() }), inheritable: false },
        PropertyTableEntry { name: "margin-bottom", initial: CssValue::Number(Number { text: "0".to_owned() }), inheritable: false },
        PropertyTableEntry { name: "margin-left", initial: CssValue::Number(Number { text: "0".to_owned() }), inheritable: false },
        PropertyTableEntry { name: "max-height", initial: CssValue::String("none".to_owned()), inheritable: false },
        PropertyTableEntry { name: "max-width", initial: CssValue::String("none".to_owned()), inheritable: false },
        PropertyTableEntry { name: "min-height", initial: CssValue::Number(Number { text: "0".to_owned() }), inheritable: false },
        PropertyTableEntry { name: "min-width", initial: CssValue::Number(Number { text: "0".to_owned() }), inheritable: false },
        PropertyTableEntry { name: "orphans", initial: CssValue::Number(Number { text: "2".to_owned() }), inheritable: true },
        PropertyTableEntry { name: "outline", initial: CssValue::String("initial".to_owned()), inheritable: false },
        PropertyTableEntry { name: "outline-color", initial: CssValue::String("invert".to_owned()), inheritable: false },
        PropertyTableEntry { name: "outline-style", initial: CssValue::String("none".to_owned()), inheritable: false },
        PropertyTableEntry { name: "outline-width", initial: CssValue::String("medium".to_owned()), inheritable: false },
        PropertyTableEntry { name: "overflow", initial: CssValue::String("visible".to_owned()), inheritable: false },
        PropertyTableEntry { name: "padding", initial: CssValue::Number(Number { text: "0".to_owned() }), inheritable: false },
        PropertyTableEntry { name: "padding-top", initial: CssValue::Number(Number { text: "0".to_owned() }), inheritable: false },
        PropertyTableEntry { name: "padding-right", initial: CssValue::Number(Number { text: "0".to_owned() }), inheritable: false },
        PropertyTableEntry { name: "padding-bottom", initial: CssValue::Number(Number { text: "0".to_owned() }), inheritable: false },
        PropertyTableEntry { name: "padding-left", initial: CssValue::Number(Number { text: "0".to_owned() }), inheritable: false },
        PropertyTableEntry { name: "page-break-after", initial: CssValue::String("auto".to_owned()), inheritable: false },
        PropertyTableEntry { name: "page-break-before", initial: CssValue::String("auto".to_owned()), inheritable: false },
        PropertyTableEntry { name: "page-break-inside", initial: CssValue::String("auto".to_owned()), inheritable: false },
        PropertyTableEntry { name: "pause-after", initial: CssValue::Number(Number { text: "0".to_owned() }), inheritable: false },
        PropertyTableEntry { name: "pause-before", initial: CssValue::Number(Number { text: "0".to_owned() }), inheritable: false },
        PropertyTableEntry { name: "pitch", initial: CssValue::String("medium".to_owned()), inheritable: false },
        PropertyTableEntry { name: "pitch-range", initial: CssValue::Number(Number { text: "50".to_owned() }), inheritable: false },
        PropertyTableEntry { name: "play-during", initial: CssValue::String("auto".to_owned()), inheritable: false },
        PropertyTableEntry { name: "position", initial: CssValue::String("static".to_owned()), inheritable: false },
        PropertyTableEntry { name: "quotes", initial: CssValue::String("initial".to_owned()), inheritable: false },
        PropertyTableEntry { name: "richness", initial: CssValue::Number(Number { text: "50".to_owned() }), inheritable: false },
        PropertyTableEntry { name: "right", initial: CssValue::String("auto".to_owned()), inheritable: false },
        PropertyTableEntry { name: "speak", initial: CssValue::String("normal".to_owned()), inheritable: false },
        PropertyTableEntry { name: "speak-header", initial: CssValue::String("once".to_owned()), inheritable: false },
        PropertyTableEntry { name: "speak-numeral", initial: CssValue::String("continuous".to_owned()), inheritable: false },
        PropertyTableEntry { name: "speak-punctuation", initial: CssValue::String("none".to_owned()), inheritable: false },
        PropertyTableEntry { name: "speech-rate", initial: CssValue::String("medium".to_owned()), inheritable: false },
        PropertyTableEntry { name: "stress", initial: CssValue::Number(Number { text: "50".to_owned() }), inheritable: false },
        PropertyTableEntry { name: "table-layout", initial: CssValue::String("auto".to_owned()), inheritable: false },
        PropertyTableEntry { name: "text-align", initial: CssValue::String("initial".to_owned()), inheritable: true },
        PropertyTableEntry { name: "text-decoration", initial: CssValue::String("none".to_owned()), inheritable: true },
        PropertyTableEntry { name: "text-indent", initial: CssValue::Number(Number { text: "0".to_owned() }), inheritable: true },
        PropertyTableEntry { name: "text-transform", initial: CssValue::String("none".to_owned()), inheritable: true },
        PropertyTableEntry { name: "top", initial: CssValue::String("auto".to_owned()), inheritable: false },
        PropertyTableEntry { name: "unicode-bidi", initial: CssValue::String("normal".to_owned()), inheritable: true },
        PropertyTableEntry { name: "vertical-align", initial: CssValue::String("baseline".to_owned()), inheritable: true },
        PropertyTableEntry { name: "visibility", initial: CssValue::String("visible".to_owned()), inheritable: false },
        PropertyTableEntry { name: "voice-family", initial: CssValue::String("initial".to_owned()), inheritable: false },
        PropertyTableEntry { name: "volume", initial: CssValue::String("medium".to_owned()), inheritable: false },
        PropertyTableEntry { name: "white-space", initial: CssValue::String("normal".to_owned()), inheritable: true },
        PropertyTableEntry { name: "widows", initial: CssValue::Number(Number { text: "2".to_owned() }), inheritable: true },
        PropertyTableEntry { name: "width", initial: CssValue::String("auto".to_owned()), inheritable: false },
        PropertyTableEntry { name: "word-spacing", initial: CssValue::String("normal".to_owned()), inheritable: true },
        PropertyTableEntry { name: "z-index", initial: CssValue::String("auto".to_owned()), inheritable: false }
    ];
    assert(table_view(v@) =~= property_table_view());
    v
}

/// The first entry of the table with the given name.
pub open spec fn find_entry(t: Seq<(Seq<char>, CssValueView, bool)>, name: Seq<char>) -> Option<(Seq<char>, CssValueView, bool)>
    decreases t.len(),
{
    if t.len() == 0 {
        None
    } else if t[0].0 == name {
        Some(t[0])
    } else {
        find_entry(t.drop_first(), name)
    }
}

/// Returns the table entry of a property, if the table has one.
pub fn get_property_values(name: &str) -> (r: Option<PropertyTableEntry>)
    ensures
        match r {
            Some(e) => find_entry(property_table_view(), name@) == Some((e.name@, e.initial@, e.inheritable)),
            None => find_entry(property_table_view(), name@) is None,
        },
{
    let mut table = property_table();
    let wanted = chars_of(name);
    assert(table_view(table@).skip(0) =~= table_view(table@));
    let mut i: usize = 0;
    while i < table.len()
        invariant
            i <= table.len(),
            wanted@ == name@,
            find_entry(property_table_view(), name@) == find_entry(table_view(table@).skip(i as int), name@),
            table_view(table@).len() == table.len(),
            forall|k: int| 0 <= k < table.len() ==> table_view(table@)[k] == (#[trigger] table@[k].name@, table@[k].initial@, table@[k].inheritable),
        decreases table.len() - i,
    {
        let ghost rest = table_view(table@).skip(i as int);
        assert(rest[0] == table_view(table@)[i as int]);
        assert(rest.drop_first() =~= table_view(table@).skip(i + 1));
        if chars_eq(&chars_of(table[i].name), &wanted) {
            let e = table.remove(i);
            return Some(e);
        }
        i += 1;
    }
    None
}

/// Skipping an entry with another name does not change what is found.
proof fn lemma_find_entry_step(t: Seq<(Seq<char>, CssValueView, bool)>, name: Seq<char>, k: int)
    requires
        0 <= k < t.len(),
        t[k].0 != name,
    ensures
        find_entry(t.skip(k), name) == find_entry(t.skip(k + 1), name),
{
    assert(t.skip(k).drop_first() =~= t.skip(k + 1));
    assert(t.skip(k)[0] == t[k]);
}

/// The initial values of the border properties.
pub proof fn lemma_border_initial_values()
    ensures
        find_entry(property_table_view(), "border-style"@) == Some(("border-style"@, CssValueView::String("none"@), false)),
        find_entry(property_table_view(), "border-width"@) == Some(("border-width"@, CssValueView::String("initial"@), false)),
        find_entry(property_table_view(), "border-color"@) == Some(("border-color"@, CssValueView::String("initial"@), false)),
{
    reveal_strlit("azimuth");
    reveal_strlit("background-attachment");
    reveal_strlit("background-color");
    reveal_strlit("background-image");
    reveal_strlit("background-position");
    reveal_strlit("background-repeat");
    reveal_strlit("border-collapse");
    reveal_strlit("border-color");
    reveal_strlit("border-spacing");
    reveal_strlit("border-style");
    reveal_strlit("border-top");
    reveal_strlit("border-right");
    reveal_strlit("border-bottom");
    reveal_strlit("border-left");
    reveal_strlit("border-top-color");
    reveal_strlit("border-right-color");
    reveal_strlit("border-bottom-color");
    reveal_strlit("border-left-color");
    reveal_strlit("border-top-style");
    reveal_strlit("border-right-style");
    reveal_strlit("border-bottom-style");
    reveal_strlit("border-left-style");
    reveal_strlit("border-top-width");
    reveal_strlit("border-right-width");
    reveal_strlit("border-bottom-width");
    reveal_strlit("border-left-width");
    reveal_strlit("border-width");
    let t = property_table_view();
    assert("border-width"@.len() == 12);
    assert(t[0].0 == "azimuth"@);
    assert("azimuth"@.len() == 7);
    lemma_find_entry_step(t, "border-width"@, 0);
    assert(t[1].0 == "background-attachment"@);
    assert("background-attachment"@.len() == 21);
    lemma_find_entry_step(t, "border-width"@, 1);
    assert(t[2].0 == "background-color"@);
    assert("background-color"@.len() == 16);
    lemma_find_entry_step(t, "border-width"@, 2);
    assert(t[3].0 == "background-image"@);
    assert("background-image"@.len() == 16);
    lemma_find_entry_step(t, "border-width"@, 3);
    assert(t[4].0 == "background-position"@);
    assert("background-position"@.len() == 19);
    lemma_find_entry_step(t, "border-width"@, 4);
    assert(t[5].0 == "background-repeat"@);
    assert("background-repeat"@.len() == 17);
    lemma_find_entry_step(t, "border-width"@, 5);
    assert(t[6].0 == "border-collapse"@);
    assert("border-collapse"@.len() == 15);
    lemma_find_entry_step(t, "border-width"@, 6);
    assert(t[7].0 == "border-color"@);
    assert("border-color"@[7] != "border-width"@[7]);
    lemma_find_entry_step(t, "border-width"@, 7);
    assert(t[8].0 == "border-spacing"@);
    assert("border-spacing"@.len() == 14);
    lemma_find_entry_step(t, "border-width"@, 8);
    assert(t[9].0 == "border-style"@);
    assert("border-style"@[7] != "border-width"@[7]);
    lemma_find_entry_step(t, "border-width"@, 9);
    assert(t[10].0 == "border-top"@);
    assert("border-top"@.len() == 10);
    lemma_find_entry_step(t, "border-width"@, 10);
    assert(t[11].0 == "border-right"@);
    assert("border-right"@[7] != "border-width"@[7]);
    lemma_find_entry_step(t, "border-width"@, 11);
    assert(t[12].0 == "border-bottom"@);
    assert("border-bottom"@.len() == 13);
    lemma_find_entry_step(t, "border-width"@, 12);
    assert(t[13].0 == "border-left"@);
    assert("border-left"@.len() == 11);
    lemma_find_entry_step(t, "border-width"@, 13);
    assert(t[14].0 == "border-top-color"@);
    assert("border-top-color"@.len() == 16);
    lemma_find_entry_step(t, "border-width"@, 14);
    assert(t[15].0 == "border-right-color"@);
    assert("border-right-color"@.len() == 18);
    lemma_find_entry_step(t, "border-width"@, 15);
    assert(t[16].0 == "border-bottom-color"@);
    assert("border-bottom-color"@.len() == 19);
    lemma_find_entry_step(t, "border-width"@, 16);
    assert(t[17].0 == "border-left-color"@);
    assert("border-left-color"@.len() == 17);
    lemma_find_entry_step(t, "border-width"@, 17);
    assert(t[18].0 == "border-top-style"@);
    assert("border-top-style"@.len() == 16);
    lemma_find_entry_step(t, "border-width"@, 18);
    assert(t[19].0 == "border-right-style"@);
    assert("border-right-style"@.len() == 18);
    lemma_find_entry_step(t, "border-width"@, 19);
    assert(t[20].0 == "border-bottom-style"@);
    assert("border-bottom-style"@.len() == 19);
    lemma_find_entry_step(t, "border-width"@, 20);
    assert(t[21].0 == "border-left-style"@);
    assert("border-left-style"@.len() == 17);
    lemma_find_entry_step(t, "border-width"@, 21);
    assert(t[22].0 == "border-top-width"@);
    assert("border-top-width"@.len() == 16);
    lemma_find_entry_step(t, "border-width"@, 22);
    assert(t[23].0 == "border-right-width"@);
    assert("border-right-width"@.len() == 18);
    lemma_find_entry_step(t, "border-width"@, 23);
    assert(t[24].0 == "border-bottom-width"@);
    assert("border-bottom-width"@.len() == 19);
    lemma_find_entry_step(t, "border-width"@, 24);
    assert(t[25].0 == "border-left-width"@);
    assert("border-left-width"@.len() == 17);
    lemma_find_entry_step(t, "border-width"@, 25);
    assert(t.skip(26)[0] == t[26]);
    assert("border-color"@.len() == 12);
    assert(t[0].0 == "azimuth"@);
    assert("azimuth"@.len() == 7);
    lemma_find_entry_step(t, "border-color"@, 0);
    assert(t[1].0 == "background-attachment"@);
    assert("background-attachment"@.len() == 21);
    lemma_find_entry_step(t, "border-color"@, 1);
    assert(t[2].0 == "background-color"@);
    assert("background-color"@.len() == 16);
    lemma_find_entry_step(t, "border-color"@, 2);
    assert(t[3].0 == "background-image"@);
    assert("background-image"@.len() == 16);
    lemma_find_entry_step(t, "border-color"@, 3);
    assert(t[4].0 == "background-position"@);
    assert("background-position"@.len() == 19);
    lemma_find_entry_step(t, "border-color"@, 4);
    assert(t[5].0 == "background-repeat"@);
    assert("background-repeat"@.len() == 17);
    lemma_find_entry_step(t, "border-color"@, 5);
    assert(t[6].0 == "border-collapse"@);
    assert("border-collapse"@.len() == 15);
    lemma_find_entry_step(t, "border-color"@, 6);
    assert(t.skip(7)[0] == t[7]);
    assert("border-style"@.len() == 12);
    assert(t[0].0 == "azimuth"@);
    assert("azimuth"@.len() == 7);
    lemma_find_entry_step(t, "border-style"@, 0);
    assert(t[1].0 == "background-attachment"@);
    assert("background-attachment"@.len() == 21);
    lemma_find_entry_step(t, "border-style"@, 1);
    assert(t[2].0 == "background-color"@);
    assert("background-color"@.len() == 16);
    lemma_find_entry_step(t, "border-style"@, 2);
    assert(t[3].0 == "background-image"@);
    assert("background-image"@.len() == 16);
    lemma_find_entry_step(t, "border-style"@, 3);
    assert(t[4].0 == "background-position"@);
    assert("background-position"@.len() == 19);
    lemma_find_entry_step(t, "border-style"@, 4);
    assert(t[5].0 == "background-repeat"@);
    assert("background-repeat"@.len() == 17);
    lemma_find_entry_step(t, "border-style"@, 5);
    assert(t[6].0 == "border-collapse"@);
    assert("border-collapse"@.len() == 15);
    lemma_find_entry_step(t, "border-style"@, 6);
    assert(t[7].0 == "border-color"@);
    assert("border-color"@[7] != "border-style"@[7]);
    lemma_find_entry_step(t, "border-style"@, 7);
    assert(t[8].0 == "border-spacing"@);
    assert("border-spacing"@.len() == 14);
    lemma_find_entry_step(t, "border-style"@, 8);
    assert(t.skip(9)[0] == t[9]);
    assert(t.skip(0) =~= t);
}

} // verus!
