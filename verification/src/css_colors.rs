//! CSS colours: the named-colour table and the parsing of `#rgb`-style hex notations.
use vstd::prelude::*;
use crate::text::{chars_eq, chars_of};

verus! {

/// One entry of the named-colour table: a colour keyword and its `#rrggbb` notation.
pub struct CssColorEntry {
    pub name: &'static str,
    pub value: &'static str,
}

/// An RGBA colour with 8-bit channels.
#[derive(Debug, Clone, Copy, PartialEq, Eq, Structural)]
pub struct RgbColor {
    /// Red component
    pub r: u8,
    /// Green component
    pub g: u8,
    /// Blue component
    pub b: u8,
    /// Alpha component (0 = transparent, 255 = solid)
    pub a: u8,
}

/// Opaque black, the colour of anything that cannot be parsed.
pub open spec fn default_color() -> RgbColor {
    RgbColor { r: 0, g: 0, b: 0, a: 255 }
}

impl RgbColor {
    pub fn new(r: u8, g: u8, b: u8, a: u8) -> (c: Self)
        ensures
            c == (RgbColor { r, g, b, a }),
    {
        RgbColor { r, g, b, a }
    }
}

impl Default for RgbColor {
    fn default() -> (c: Self)
        ensures
            c == default_color(),
    {
        RgbColor { r: 0, g: 0, b: 0, a: 255 }
    }
}

/// `c` is one of `0-9`, `a-f`, `A-F`.
pub open spec fn is_hex_digit(c: char) -> bool {
    ('0' <= c && c <= '9') || ('a' <= c && c <= 'f') || ('A' <= c && c <= 'F')
}

/// The value of a hex digit.
pub open spec fn hex_value(c: char) -> nat {
    if '0' <= c && c <= '9' {
        (c as nat - '0' as nat) as nat
    } else if 'a' <= c && c <= 'f' {
        (c as nat - 'a' as nat + 10) as nat
    } else {
        (c as nat - 'A' as nat + 10) as nat
    }
}

/// `s` is `#` followed by between `min` and `max` hex digits and nothing else
/// (what the pattern `^#[0-9a-fA-F]{min,max}$` accepts).
pub open spec fn is_hex_notation(s: Seq<char>, min: nat, max: nat) -> bool {
    &&& 1 + min <= s.len() <= 1 + max
    &&& s[0] == '#'
    &&& forall|i: int| 1 <= i < s.len() ==> is_hex_digit(#[trigger] s[i])
}

/// The byte written by the two hex digits `s[i]`, `s[i + 1]`.
pub open spec fn hex_pair(s: Seq<char>, i: int) -> u8 {
    (hex_value(s[i]) * 16 + hex_value(s[i + 1])) as u8
}

/// The byte written by the single hex digit `s[i]`, doubled (`f` is `ff`).
pub open spec fn hex_single(s: Seq<char>, i: int) -> u8 {
    (hex_value(s[i]) * 17) as u8
}

/// The colour that a hex notation stands for; opaque black when `s` is no hex notation.
/// Six or eight digits read as `rrggbb[aa]`, three or four digits as `rgb[a]`; any other
/// number of digits is no colour.
pub open spec fn spec_parse_hex(s: Seq<char>) -> RgbColor {
    if is_hex_notation(s, 6, 8) && s.len() != 8 {
        RgbColor {
            r: hex_pair(s, 1),
            g: hex_pair(s, 3),
            b: hex_pair(s, 5),
            a: if s.len() == 9 { hex_pair(s, 7) } else { 255 },
        }
    } else if is_hex_notation(s, 3, 4) {
        RgbColor {
            r: hex_single(s, 1),
            g: hex_single(s, 2),
            b: hex_single(s, 3),
            a: if s.len() == 5 { hex_single(s, 4) } else { 255 },
        }
    } else {
        default_color()
    }
}

/// The lower-case hex digit of `d` (below 16).
pub open spec fn hex_digit_of(d: nat) -> char {
    if d < 10 {
        ('0' as nat + d) as char
    } else {
        ('a' as nat + d - 10) as char
    }
}

/// The two hex digits of a byte.
pub open spec fn hex_byte(b: u8) -> Seq<char> {
    seq![hex_digit_of(b as nat / 16), hex_digit_of(b as nat % 16)]
}

proof fn lemma_hex_digit_of(d: nat)
    requires
        d < 16,
    ensures
        is_hex_digit(hex_digit_of(d)),
        hex_value(hex_digit_of(d)) == d,
{
}

/// Law: `#rrggbb` and `#rrggbbaa` read back as the bytes written in them (opaque without an
/// alpha), and a short notation `#rgb` or `#rgba` stands for each digit written twice.
pub proof fn law_hex_colors(r: u8, g: u8, b: u8, a: u8, d: Seq<char>)
    requires
        d.len() == 4,
        forall|i: int| 0 <= i < 4 ==> is_hex_digit(#[trigger] d[i]),
    ensures
        spec_parse_hex(seq!['#'] + hex_byte(r) + hex_byte(g) + hex_byte(b)) == (RgbColor { r, g, b, a: 255 }),
        spec_parse_hex(seq!['#'] + hex_byte(r) + hex_byte(g) + hex_byte(b) + hex_byte(a)) == (RgbColor { r, g, b, a }),
        spec_parse_hex(seq!['#', d[0], d[1], d[2]]) == spec_parse_hex(seq!['#', d[0], d[0], d[1], d[1], d[2], d[2]]),
        spec_parse_hex(seq!['#', d[0], d[1], d[2], d[3]])
            == spec_parse_hex(seq!['#', d[0], d[0], d[1], d[1], d[2], d[2], d[3], d[3]]),
{
    lemma_hex_digit_of(r as nat / 16);
    lemma_hex_digit_of(r as nat % 16);
    lemma_hex_digit_of(g as nat / 16);
    lemma_hex_digit_of(g as nat % 16);
    lemma_hex_digit_of(b as nat / 16);
    lemma_hex_digit_of(b as nat % 16);
    lemma_hex_digit_of(a as nat / 16);
    lemma_hex_digit_of(a as nat % 16);
    let s6 = seq!['#'] + hex_byte(r) + hex_byte(g) + hex_byte(b);
    let s8 = s6 + hex_byte(a);
    assert(s6 =~= seq!['#', hex_digit_of(r as nat / 16), hex_digit_of(r as nat % 16), hex_digit_of(g as nat / 16), hex_digit_of(g as nat % 16), hex_digit_of(b as nat / 16), hex_digit_of(b as nat % 16)]);
    assert(s8 =~= s6.push(hex_digit_of(a as nat / 16)).push(hex_digit_of(a as nat % 16)));
    assert(is_hex_notation(s6, 6, 8));
    assert(is_hex_notation(s8, 6, 8));
    assert(hex_pair(s6, 1) == r);
    assert(hex_pair(s6, 3) == g);
    assert(hex_pair(s6, 5) == b);
    assert(hex_pair(s8, 1) == r);
    assert(hex_pair(s8, 3) == g);
    assert(hex_pair(s8, 5) == b);
    assert(hex_pair(s8, 7) == a);
    let t3 = seq!['#', d[0], d[1], d[2]];
    let l3 = seq!['#', d[0], d[0], d[1], d[1], d[2], d[2]];
    let t4 = seq!['#', d[0], d[1], d[2], d[3]];
    let l4 = seq!['#', d[0], d[0], d[1], d[1], d[2], d[2], d[3], d[3]];
    assert(is_hex_notation(t3, 3, 4));
    assert(!is_hex_notation(t3, 6, 8));
    assert(is_hex_notation(l3, 6, 8));
    assert(is_hex_notation(t4, 3, 4));
    assert(!is_hex_notation(t4, 6, 8));
    assert(is_hex_notation(l4, 6, 8));
}

/// The named-colour table, as (name, notation) pairs.
pub open spec fn color_table() -> Seq<(Seq<char>, Seq<char>)> {
    seq![
        ("aliceblue"@, "#f0f8ff"@),
        ("antiquewhite"@, "#faebd7"@),
        ("aqua"@, "#00ffff"@),
        ("aquamarine"@, "#7fffd4"@),
        ("azure"@, "#f0ffff"@),
        ("beige"@, "#f5f5dc"@),
        ("bisque"@, "#ffe4c4"@),
        ("black"@, "#000000"@),
        ("blanchedalmond"@, "#ffebcd"@),
        ("blue"@, "#0000ff"@),
        ("blueviolet"@, "#8a2be2"@),
        ("brown"@, "#a52a2a"@),
        ("burlywood"@, "#deb887"@),
        ("cadetblue"@, "#5f9ea0"@),
        ("chartreuse"@, "#7fff00"@),
        ("chocolate"@, "#d2691e"@),
        ("coral"@, "#ff7f50"@),
        ("cornflowerblue"@, "#6495ed"@),
        ("cornsilk"@, "#fff8dc"@),
        ("crimson"@, "#dc143c"@),
        ("cyan"@, "#00ffff"@),
        ("darkblue"@, "#00008b"@),
        ("darkcyan"@, "#008b8b"@),
        ("darkgoldenrod"@, "#b8860b"@),
        ("darkgray"@, "#a9a9a9"@),
        ("darkgreen"@, "#006400"@),
        ("darkgrey"@, "#a9a9a9"@),
        ("darkkhaki"@, "#bdb76b"@),
        ("darkmagenta"@, "#8b008b"@),
        ("darkolivegreen"@, "#556b2f"@),
        ("darkorange"@, "#ff8c00"@),
        ("darkorchid"@, "#9932cc"@),
        ("darkred"@, "#8b0000"@),
        ("darksalmon"@, "#e9967a"@),
        ("darkseagreen"@, "#8fbc8f"@),
        ("darkslateblue"@, "#483d8b"@),
        ("darkslategray"@, "#2f4f4f"@),
        ("darkslategrey"@, "#2f4f4f"@),
        ("darkturquoise"@, "#00ced1"@),
        ("darkviolet"@, "#9400d3"@),
        ("deeppink"@, "#ff1493"@),
        ("deepskyblue"@, "#00bfff"@),
        ("dimgray"@, "#696969"@),
        ("dimgrey"@, "#696969"@),
        ("dodgerblue"@, "#1e90ff"@),
        ("firebrick"@, "#b22222"@),
        ("floralwhite"@, "#fffaf0"@),
        ("forestgreen"@, "#228b22"@),
        ("fuchsia"@, "#ff00ff"@),
        ("gainsboro"@, "#dcdcdc"@),
        ("ghostwhite"@, "#f8f8ff"@),
        ("gold"@, "#ffd700"@),
        ("goldenrod"@, "#daa520"@),
        ("gray"@, "#808080"@),
        ("green"@, "#008000"@),
        ("greenyellow"@, "#adff2f"@),
        ("grey"@, "#808080"@),
        ("honeydew"@, "#f0fff0"@),
        ("hotpink"@, "#ff69b4"@),
        ("indianred"@, "#cd5c5c"@),
        ("indigo"@, "#4b0082"@),
        ("ivory"@, "#fffff0"@),
        ("khaki"@, "#f0e68c"@),
        ("lavender"@, "#e6e6fa"@),
        ("lavenderblush"@, "#fff0f5"@),
        ("lawngreen"@, "#7cfc00"@),
        ("lemonchiffon"@, "#fffacd"@),
        ("lightblue"@, "#add8e6"@),
        ("lightcoral"@, "#f08080"@),
        ("lightcyan"@, "#e0ffff"@),
        ("lightgoldenrodyellow"@, "#fafad2"@),
        ("lightgray"@, "#d3d3d3"@),
        ("lightgreen"@, "#90ee90"@),
        ("lightgrey"@, "#d3d3d3"@),
        ("lightpink"@, "#ffb6c1"@),
        ("lightsalmon"@, "#ffa07a"@),
        ("lightseagreen"@, "#20b2aa"@),
        ("lightskyblue"@, "#87cefa"@),
        ("lightslategray"@, "#778899"@),
        ("lightslategrey"@, "#778899"@),
        ("lightsteelblue"@, "#b0c4de"@),
        ("lightyellow"@, "#ffffe0"@),
        ("lime"@, "#00ff00"@),
        ("limegreen"@, "#32cd32"@),
        ("linen"@, "#faf0e6"@),
        ("magenta"@, "#ff00ff"@),
        ("maroon"@, "#800000"@),
        ("mediumaquamarine"@, "#66cdaa"@),
        ("mediumblue"@, "#0000cd"@),
        ("mediumorchid"@, "#ba55d3"@),
        ("mediumpurple"@, "#9370db"@),
        ("mediumseagreen"@, "#3cb371"@),
        ("mediumslateblue"@, "#7b68ee"@),
        ("mediumspringgreen"@, "#00fa9a"@),
        ("mediumturquoise"@, "#48d1cc"@),
        ("mediumvioletred"@, "#c71585"@),
        ("midnightblue"@, "#191970"@),
        ("mintcream"@, "#f5fffa"@),
        ("mistyrose"@, "#ffe4e1"@),
        ("moccasin"@, "#ffe4b5"@),
        ("navajowhite"@, "#ffdead"@),
        ("navy"@, "#000080"@),
        ("oldlace"@, "#fdf5e6"@),
        ("olive"@, "#808000"@),
        ("olivedrab"@, "#6b8e23"@),
        ("orange"@, "#ffa500"@),
        ("orangered"@, "#ff4500"@),
        ("orchid"@, "#da70d6"@),
        ("palegoldenrod"@, "#eee8aa"@),
        ("palegreen"@, "#98fb98"@),
        ("paleturquoise"@, "#afeeee"@),
        ("palevioletred"@, "#db7093"@),
        ("papayawhip"@, "#ffefd5"@),
        ("peachpuff"@, "#ffdab9"@),
        ("peru"@, "#cd853f"@),
        ("pink"@, "#ffc0cb"@),
        ("plum"@, "#dda0dd"@),
        ("powderblue"@, "#b0e0e6"@),
        ("purple"@, "#800080"@),
        ("red"@, "#ff0000"@),
        ("rosybrown"@, "#bc8f8f"@),
        ("royalblue"@, "#4169e1"@),
        ("saddlebrown"@, "#8b4513"@),
        ("salmon"@, "#fa8072"@),
        ("sandybrown"@, "#f4a460"@),
        ("seagreen"@, "#2e8b57"@),
        ("seashell"@, "#fff5ee"@),
        ("sienna"@, "#a0522d"@),
        ("silver"@, "#c0c0c0"@),
        ("skyblue"@, "#87ceeb"@),
        ("slateblue"@, "#6a5acd"@),
        ("slategray"@, "#708090"@),
        ("slategrey"@, "#708090"@),
        ("snow"@, "#fffafa"@),
        ("springgreen"@, "#00ff7f"@),
        ("steelblue"@, "#4682b4"@),
        ("tan"@, "#d2b48c"@),
        ("teal"@, "#008080"@),
        ("thistle"@, "#d8bfd8"@),
        ("tomato"@, "#ff6347"@),
        ("turquoise"@, "#40e0d0"@),
        ("violet"@, "#ee82ee"@),
        ("wheat"@, "#f5deb3"@),
        ("white"@, "#ffffff"@),
        ("whitesmoke"@, "#f5f5f5"@),
        ("yellow"@, "#ffff00"@),
        ("yellowgreen"@, "#9acd32"@)
    ]
}

/// The notation of the first entry of `table` named `name`.
pub open spec fn find_color(table: Seq<(Seq<char>, Seq<char>)>, name: Seq<char>) -> Option<Seq<char>>
    decreases table.len(),
{
    if table.len() == 0 {
        None
    } else if table[0].0 == name {
        Some(table[0].1)
    } else {
        find_color(table.drop_first(), name)
    }
}

/// The colour that a CSS colour string stands for: hex notations and colour names; the
/// functional notations and everything else give opaque black.
pub open spec fn spec_color_from(s: Seq<char>) -> RgbColor {
    if s.len() == 0 {
        default_color()
    } else if s[0] == '#' {
        spec_parse_hex(s)
    } else {
        match find_color(color_table(), s) {
            Some(v) => spec_parse_hex(v),
            None => default_color(),
        }
    }
}

/// The (name, notation) pairs of a list of entries.
pub open spec fn entries_view(v: Seq<CssColorEntry>) -> Seq<(Seq<char>, Seq<char>)> {
    v.map_values(|e: CssColorEntry| (e.name@, e.value@))
}

/// The named colours of CSS 2.1 and their `#rrggbb` notations.
pub fn css_colornames() -> (v: Vec<CssColorEntry>)
    ensures
        entries_view(v@) == color_table(),
{
    let v = vec![
        CssColorEntry { name: "aliceblue", value: "#f0f8ff" },
        CssColorEntry { name: "antiquewhite", value: "#faebd7" },
        CssColorEntry { name: "aqua", value: "#00ffff" },
        CssColorEntry { name: "aquamarine", value: "#7fffd4" },
        CssColorEntry { name: "azure", value: "#f0ffff" },
        CssColorEntry { name: "beige", value: "#f5f5dc" },
        CssColorEntry { name: "bisque", value: "#ffe4c4" },
        CssColorEntry { name: "black", value: "#000000" },
        CssColorEntry { name: "blanchedalmond", value: "#ffebcd" },
        CssColorEntry { name: "blue", value: "#0000ff" },
        CssColorEntry { name: "blueviolet", value: "#8a2be2" },
        CssColorEntry { name: "brown", value: "#a52a2a" },
        CssColorEntry { name: "burlywood", value: "#deb887" },
        CssColorEntry { name: "cadetblue", value: "#5f9ea0" },
        CssColorEntry { name: "chartreuse", value: "#7fff00" },
        CssColorEntry { name: "chocolate", value: "#d2691e" },
        CssColorEntry { name: "coral", value: "#ff7f50" },
        CssColorEntry { name: "cornflowerblue", value: "#6495ed" },
        CssColorEntry { name: "cornsilk", value: "#fff8dc" },
        CssColorEntry { name: "crimson", value: "#dc143c" },
        CssColorEntry { name: "cyan", value: "#00ffff" },
        CssColorEntry { name: "darkblue", value: "#00008b" },
        CssColorEntry { name: "darkcyan", value: "#008b8b" },
        CssColorEntry { name: "darkgoldenrod", value: "#b8860b" },
        CssColorEntry { name: "darkgray", value: "#a9a9a9" },
        CssColorEntry { name: "darkgreen", value: "#006400" },
        CssColorEntry { name: "darkgrey", value: "#a9a9a9" },
        CssColorEntry { name: "darkkhaki", value: "#bdb76b" },
        CssColorEntry { name: "darkmagenta", value: "#8b008b" },
        CssColorEntry { name: "darkolivegreen", value: "#556b2f" },
        CssColorEntry { name: "darkorange", value: "#ff8c00" },
        CssColorEntry { name: "darkorchid", value: "#9932cc" },
        CssColorEntry { name: "darkred", value: "#8b0000" },
        CssColorEntry { name: "darksalmon", value: "#e9967a" },
        CssColorEntry { name: "darkseagreen", value: "#8fbc8f" },
        CssColorEntry { name: "darkslateblue", value: "#483d8b" },
        CssColorEntry { name: "darkslategray", value: "#2f4f4f" },
        CssColorEntry { name: "darkslategrey", value: "#2f4f4f" },
        CssColorEntry { name: "darkturquoise", value: "#00ced1" },
        CssColorEntry { name: "darkviolet", value: "#9400d3" },
        CssColorEntry { name: "deeppink", value: "#ff1493" },
        CssColorEntry { name: "deepskyblue", value: "#00bfff" },
        CssColorEntry { name: "dimgray", value: "#696969" },
        CssColorEntry { name: "dimgrey", value: "#696969" },
        CssColorEntry { name: "dodgerblue", value: "#1e90ff" },
        CssColorEntry { name: "firebrick", value: "#b22222" },
        CssColorEntry { name: "floralwhite", value: "#fffaf0" },
        CssColorEntry { name: "forestgreen", value: "#228b22" },
        CssColorEntry { name: "fuchsia", value: "#ff00ff" },
        CssColorEntry { name: "gainsboro", value: "#dcdcdc" },
        CssColorEntry { name: "ghostwhite", value: "#f8f8ff" },
        CssColorEntry { name: "gold", value: "#ffd700" },
        CssColorEntry { name: "goldenrod", value: "#daa520" },
        CssColorEntry { name: "gray", value: "#808080" },
        CssColorEntry { name: "green", value: "#008000" },
        CssColorEntry { name: "greenyellow", value: "#adff2f" },
        CssColorEntry { name: "grey", value: "#808080" },
        CssColorEntry { name: "honeydew", value: "#f0fff0" },
        CssColorEntry { name: "hotpink", value: "#ff69b4" },
        CssColorEntry { name: "indianred", value: "#cd5c5c" },
        CssColorEntry { name: "indigo", value: "#4b0082" },
        CssColorEntry { name: "ivory", value: "#fffff0" },
        CssColorEntry { name: "khaki", value: "#f0e68c" },
        CssColorEntry { name: "lavender", value: "#e6e6fa" },
        CssColorEntry { name: "lavenderblush", value: "#fff0f5" },
        CssColorEntry { name: "lawngreen", value: "#7cfc00" },
        CssColorEntry { name: "lemonchiffon", value: "#fffacd" },
        CssColorEntry { name: "lightblue", value: "#add8e6" },
        CssColorEntry { name: "lightcoral", value: "#f08080" },
        CssColorEntry { name: "lightcyan", value: "#e0ffff" },
        CssColorEntry { name: "lightgoldenrodyellow", value: "#fafad2" },
        CssColorEntry { name: "lightgray", value: "#d3d3d3" },
        CssColorEntry { name: "lightgreen", value: "#90ee90" },
        CssColorEntry { name: "lightgrey", value: "#d3d3d3" },
        CssColorEntry { name: "lightpink", value: "#ffb6c1" },
        CssColorEntry { name: "lightsalmon", value: "#ffa07a" },
        CssColorEntry { name: "lightseagreen", value: "#20b2aa" },
        CssColorEntry { name: "lightskyblue", value: "#87cefa" },
        CssColorEntry { name: "lightslategray", value: "#778899" },
        CssColorEntry { name: "lightslategrey", value: "#778899" },
        CssColorEntry { name: "lightsteelblue", value: "#b0c4de" },
        CssColorEntry { name: "lightyellow", value: "#ffffe0" },
        CssColorEntry { name: "lime", value: "#00ff00" },
        CssColorEntry { name: "limegreen", value: "#32cd32" },
        CssColorEntry { name: "linen", value: "#faf0e6" },
        CssColorEntry { name: "magenta", value: "#ff00ff" },
        CssColorEntry { name: "maroon", value: "#800000" },
        CssColorEntry { name: "mediumaquamarine", value: "#66cdaa" },
        CssColorEntry { name: "mediumblue", value: "#0000cd" },
        CssColorEntry { name: "mediumorchid", value: "#ba55d3" },
        CssColorEntry { name: "mediumpurple", value: "#9370db" },
        CssColorEntry { name: "mediumseagreen", value: "#3cb371" },
        CssColorEntry { name: "mediumslateblue", value: "#7b68ee" },
        CssColorEntry { name: "mediumspringgreen", value: "#00fa9a" },
        CssColorEntry { name: "mediumturquoise", value: "#48d1cc" },
        CssColorEntry { name: "mediumvioletred", value: "#c71585" },
        CssColorEntry { name: "midnightblue", value: "#191970" },
        CssColorEntry { name: "mintcream", value: "#f5fffa" },
        CssColorEntry { name: "mistyrose", value: "#ffe4e1" },
        CssColorEntry { name: "moccasin", value: "#ffe4b5" },
        CssColorEntry { name: "navajowhite", value: "#ffdead" },
        CssColorEntry { name: "navy", value: "#000080" },
        CssColorEntry { name: "oldlace", value: "#fdf5e6" },
        CssColorEntry { name: "olive", value: "#808000" },
        CssColorEntry { name: "olivedrab", value: "#6b8e23" },
        CssColorEntry { name: "orange", value: "#ffa500" },
        CssColorEntry { name: "orangered", value: "#ff4500" },
        CssColorEntry { name: "orchid", value: "#da70d6" },
        CssColorEntry { name: "palegoldenrod", value: "#eee8aa" },
        CssColorEntry { name: "palegreen", value: "#98fb98" },
        CssColorEntry { name: "paleturquoise", value: "#afeeee" },
        CssColorEntry { name: "palevioletred", value: "#db7093" },
        CssColorEntry { name: "papayawhip", value: "#ffefd5" },
        CssColorEntry { name: "peachpuff", value: "#ffdab9" },
        CssColorEntry { name: "peru", value: "#cd853f" },
        CssColorEntry { name: "pink", value: "#ffc0cb" },
        CssColorEntry { name: "plum", value: "#dda0dd" },
        CssColorEntry { name: "powderblue", value: "#b0e0e6" },
        CssColorEntry { name: "purple", value: "#800080" },
        CssColorEntry { name: "red", value: "#ff0000" },
        CssColorEntry { name: "rosybrown", value: "#bc8f8f" },
        CssColorEntry { name: "royalblue", value: "#4169e1" },
        CssColorEntry { name: "saddlebrown", value: "#8b4513" },
        CssColorEntry { name: "salmon", value: "#fa8072" },
        CssColorEntry { name: "sandybrown", value: "#f4a460" },
        CssColorEntry { name: "seagreen", value: "#2e8b57" },
        CssColorEntry { name: "seashell", value: "#fff5ee" },
        CssColorEntry { name: "sienna", value: "#a0522d" },
        CssColorEntry { name: "silver", value: "#c0c0c0" },
        CssColorEntry { name: "skyblue", value: "#87ceeb" },
        CssColorEntry { name: "slateblue", value: "#6a5acd" },
        CssColorEntry { name: "slategray", value: "#708090" },
        CssColorEntry { name: "slategrey", value: "#708090" },
        CssColorEntry { name: "snow", value: "#fffafa" },
        CssColorEntry { name: "springgreen", value: "#00ff7f" },
        CssColorEntry { name: "steelblue", value: "#4682b4" },
        CssColorEntry { name: "tan", value: "#d2b48c" },
        CssColorEntry { name: "teal", value: "#008080" },
        CssColorEntry { name: "thistle", value: "#d8bfd8" },
        CssColorEntry { name: "tomato", value: "#ff6347" },
        CssColorEntry { name: "turquoise", value: "#40e0d0" },
        CssColorEntry { name: "violet", value: "#ee82ee" },
        CssColorEntry { name: "wheat", value: "#f5deb3" },
        CssColorEntry { name: "white", value: "#ffffff" },
        CssColorEntry { name: "whitesmoke", value: "#f5f5f5" },
        CssColorEntry { name: "yellow", value: "#ffff00" },
        CssColorEntry { name: "yellowgreen", value: "#9acd32" }
    ];
    assert(entries_view(v@) =~= color_table());
    v
}

proof fn lemma_find_color_step(t: Seq<(Seq<char>, Seq<char>)>, name: Seq<char>, i: int)
    requires
        0 <= i < t.len(),
    ensures
        find_color(t.skip(i), name) == (if t[i].0 == name {
            Some(t[i].1)
        } else {
            find_color(t.skip(i + 1), name)
        }),
{
    assert(t.skip(i).drop_first() =~= t.skip(i + 1));
}

/// The notation of the colour named `color_name`, when the table has one.
pub fn get_hex_color_from_name(color_name: &str) -> (r: Option<&'static str>)
    ensures
        match r {
            Some(v) => find_color(color_table(), color_name@) == Some(v@),
            None => find_color(color_table(), color_name@) is None,
        },
{
    let name = chars_of(color_name);
    let table = css_colornames();
    let mut i: usize = 0;
    assert(color_table().skip(0) =~= color_table());
    while i < table.len()
        invariant
            entries_view(table@) == color_table(),
            name@ == color_name@,
            i <= table.len(),
            find_color(color_table(), name@) == find_color(color_table().skip(i as int), name@),
        decreases table.len() - i,
    {
        proof {
            lemma_find_color_step(color_table(), name@, i as int);
        }
        let entry_name = chars_of(table[i].name);
        assert(color_table()[i as int] == (table@[i as int].name@, table@[i as int].value@));
        if chars_eq(&entry_name, &name) {
            return Some(table[i].value);
        }
        i += 1;
    }
    assert(color_table().skip(i as int) =~= Seq::<(Seq<char>, Seq<char>)>::empty());
    None
}

/// The value of a hex digit.
fn hex_digit_value(c: char) -> (v: u8)
    requires
        is_hex_digit(c),
    ensures
        v == hex_value(c),
        v < 16,
{
    let n = c as u32;
    if '0' <= c && c <= '9' {
        (n - ('0' as u32)) as u8
    } else if 'a' <= c && c <= 'f' {
        (n - ('a' as u32) + 10) as u8
    } else {
        (n - ('A' as u32) + 10) as u8
    }
}

/// The pattern of six to eight hex digits after a `#`.
pub const HEX_LONG_PATTERN: &'static str = "^#[0-9a-fA-F]{6,8}$";

/// The pattern of three or four hex digits after a `#`.
pub const HEX_SHORT_PATTERN: &'static str = "^#[0-9a-fA-F]{3,4}$";

/// Compiles one of the two hex-notation patterns with `regex::Regex::new` and tests `text`
/// against it with `Regex::is_match`. Both patterns are valid, so the compilation cannot fail.
/// Claimed: the anchored patterns accept exactly `#` followed by the given number of ASCII
/// hex digits (regex's `$` matches only at the end of the text).
#[verifier::external_body]
fn regex_is_match(pattern: &str, text: &str) -> (r: bool)
    requires
        pattern@ == HEX_LONG_PATTERN@ || pattern@ == HEX_SHORT_PATTERN@,
    ensures
        pattern@ == HEX_LONG_PATTERN@ ==> (r <==> is_hex_notation(text@, 6, 8)),
        pattern@ == HEX_SHORT_PATTERN@ ==> (r <==> is_hex_notation(text@, 3, 4)),
{
    regex::Regex::new(pattern).unwrap().is_match(text)
}

/// Parses `#rrggbb`, `#rrggbbaa`, `#rgb` and `#rgba`; anything else (such as seven digits)
/// gives opaque black.
pub fn parse_hex(value: &str) -> (c: RgbColor)
    ensures
        c == spec_parse_hex(value@),
{
    let s = chars_of(value);
    if regex_is_match(HEX_LONG_PATTERN, value) && s.len() != 8 {
        let r = hex_digit_value(s[1]) * 16 + hex_digit_value(s[2]);
        let g = hex_digit_value(s[3]) * 16 + hex_digit_value(s[4]);
        let b = hex_digit_value(s[5]) * 16 + hex_digit_value(s[6]);
        let mut a: u8 = 255;
        if s.len() == 9 {
            a = hex_digit_value(s[7]) * 16 + hex_digit_value(s[8]);
        }
        return RgbColor::new(r, g, b, a);
    }
    if regex_is_match(HEX_SHORT_PATTERN, value) {
        let r = hex_digit_value(s[1]) * 17;
        let g = hex_digit_value(s[2]) * 17;
        let b = hex_digit_value(s[3]) * 17;
        let mut a: u8 = 255;
        if s.len() == 5 {
            a = hex_digit_value(s[4]) * 17;
        }
        return RgbColor::new(r, g, b, a);
    }
    RgbColor::default()
}

impl RgbColor {
    /// The colour a CSS colour string stands for (see `spec_color_from`).
    pub fn from_css(value: &str) -> (c: RgbColor)
        ensures
            c == spec_color_from(value@),
    {
        let s = chars_of(value);
        if s.len() == 0 {
            return RgbColor::default();
        }
        if s[0] == '#' {
            return parse_hex(value);
        }
        match get_hex_color_from_name(value) {
            Some(v) => parse_hex(v),
            None => RgbColor::default(),
        }
    }
}

impl From<&str> for RgbColor {
    fn from(value: &str) -> (c: RgbColor) {
        RgbColor::from_css(value)
    }
}

impl vstd::std_specs::convert::FromSpecImpl<&str> for RgbColor {
    open spec fn obeys_from_spec() -> bool {
        true
    }

    open spec fn from_spec(v: &str) -> RgbColor {
        spec_color_from(v@)
    }
}

} // verus!
