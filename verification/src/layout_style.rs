//! What the layouter makes of the keyword values of layout properties (`display`,
//! `overflow-x`, `align-items`, `grid-row-start`, ...). Each function takes the string value
//! of the property, or nothing when the node has no such property or its value is not a
//! string.
use vstd::prelude::*;
use crate::scan::{decimal_value, is_digit, trim, trim_chars};
use crate::text::{chars_eq, chars_of};

verus! {

/// Whether two strings hold the same characters.
fn is(a: &str, b: &str) -> (r: bool)
    ensures
        r == (a@ == b@),
{
    chars_eq(&chars_of(a), &chars_of(b))
}

/// The string value of a property, if any, as characters.
pub open spec fn value_view(v: Option<&str>) -> Option<Seq<char>> {
    match v {
        Some(s) => Some(s@),
        None => None,
    }
}

/// How the layout engine displays a box.
#[derive(Debug, Clone, Copy, PartialEq, Eq, Structural)]
pub enum Display {
    Block,
    /// The box is not displayed (`display: none`).
    Hidden,
    Flex,
    Grid,
}

/// Which layout the layouter itself runs for a box.
#[derive(Debug, Clone, Copy, PartialEq, Eq, Structural)]
pub enum LayoutDisplay {
    /// Left to the layout engine.
    Taffy,
    InlineBlock,
    Inline,
    Table,
}

/// What `display` gives.
pub open spec fn display_of(v: Option<Seq<char>>) -> (Display, LayoutDisplay) {
    match v {
        None => (Display::Block, LayoutDisplay::Taffy),
        Some(s) => if s == "none"@ {
            (Display::Hidden, LayoutDisplay::Taffy)
        } else if s == "flex"@ {
            (Display::Flex, LayoutDisplay::Taffy)
        } else if s == "grid"@ {
            (Display::Grid, LayoutDisplay::Taffy)
        } else if s == "inline-block"@ {
            (Display::Block, LayoutDisplay::InlineBlock)
        } else if s == "inline"@ {
            (Display::Block, LayoutDisplay::Inline)
        } else if s == "table"@ {
            (Display::Block, LayoutDisplay::Table)
        } else {
            (Display::Block, LayoutDisplay::Taffy)
        },
    }
}

/// The display of a box with `display` value `value`.
pub fn parse_display(value: Option<&str>) -> (r: (Display, LayoutDisplay))
    ensures
        r == display_of(value_view(value)),
{
    match value {
        None => (Display::Block, LayoutDisplay::Taffy),
        Some(s) => if is(s, "none") {
            (Display::Hidden, LayoutDisplay::Taffy)
        } else if is(s, "flex") {
            (Display::Flex, LayoutDisplay::Taffy)
        } else if is(s, "grid") {
            (Display::Grid, LayoutDisplay::Taffy)
        } else if is(s, "inline-block") {
            (Display::Block, LayoutDisplay::InlineBlock)
        } else if is(s, "inline") {
            (Display::Block, LayoutDisplay::Inline)
        } else if is(s, "table") {
            (Display::Block, LayoutDisplay::Table)
        } else {
            (Display::Block, LayoutDisplay::Taffy)
        },
    }
}

/// What happens to content that overflows a box.
#[derive(Debug, Clone, Copy, PartialEq, Eq, Structural)]
pub enum Overflow {
    Visible,
    Hidden,
    Scroll,
}

/// What an `overflow-x` or `overflow-y` keyword gives.
pub open spec fn overflow_of(s: Seq<char>) -> Overflow {
    if s == "hidden"@ {
        Overflow::Hidden
    } else if s == "scroll"@ {
        Overflow::Scroll
    } else {
        Overflow::Visible
    }
}

/// The overflow in each direction, visible where there is no value.
pub open spec fn overflow_pair(x: Option<Seq<char>>, y: Option<Seq<char>>) -> (Overflow, Overflow) {
    (
        match x {
            Some(s) => overflow_of(s),
            None => Overflow::Visible,
        },
        match y {
            Some(s) => overflow_of(s),
            None => Overflow::Visible,
        },
    )
}

fn overflow_keyword(s: &str) -> (r: Overflow)
    ensures
        r == overflow_of(s@),
{
    if is(s, "hidden") {
        Overflow::Hidden
    } else if is(s, "scroll") {
        Overflow::Scroll
    } else {
        Overflow::Visible
    }
}

/// The overflow of a box with `overflow-x` value `x` and `overflow-y` value `y`.
pub fn parse_overflow(x: Option<&str>, y: Option<&str>) -> (r: (Overflow, Overflow))
    ensures
        r == overflow_pair(value_view(x), value_view(y)),
{
    let mut overflow = (Overflow::Visible, Overflow::Visible);
    if let Some(v) = x {
        overflow.0 = overflow_keyword(v);
    }
    if let Some(v) = y {
        overflow.1 = overflow_keyword(v);
    }
    overflow
}

/// How a box is positioned.
#[derive(Debug, Clone, Copy, PartialEq, Eq, Structural)]
pub enum Position {
    Relative,
    Absolute,
}

/// What `position` gives: absolute only for `absolute`.
pub open spec fn position_of(v: Option<Seq<char>>) -> Position {
    if v == Some("absolute"@) {
        Position::Absolute
    } else {
        Position::Relative
    }
}

/// The positioning of a box with `position` value `value`.
pub fn parse_position(value: Option<&str>) -> (r: Position)
    ensures
        r == position_of(value_view(value)),
{
    match value {
        Some(s) => if is(s, "absolute") {
            Position::Absolute
        } else {
            Position::Relative
        },
        None => Position::Relative,
    }
}

/// How items are aligned on an axis.
#[derive(Debug, Clone, Copy, PartialEq, Eq, Structural)]
pub enum AlignItems {
    Start,
    End,
    FlexStart,
    FlexEnd,
    Center,
    Baseline,
    Stretch,
}

/// What an `align-items`, `align-self`, `justify-items` or `justify-self` value gives.
pub open spec fn align_items_of(v: Option<Seq<char>>) -> Option<AlignItems> {
    match v {
        None => None,
        Some(s) => if s == "start"@ {
            Some(AlignItems::Start)
        } else if s == "end"@ {
            Some(AlignItems::End)
        } else if s == "flex-start"@ {
            Some(AlignItems::FlexStart)
        } else if s == "flex-end"@ {
            Some(AlignItems::FlexEnd)
        } else if s == "center"@ {
            Some(AlignItems::Center)
        } else if s == "baseline"@ {
            Some(AlignItems::Baseline)
        } else if s == "stretch"@ {
            Some(AlignItems::Stretch)
        } else {
            None
        },
    }
}

/// The keyword that names an item alignment.
pub open spec fn align_items_keyword(a: AlignItems) -> Seq<char> {
    match a {
        AlignItems::Start => "start"@,
        AlignItems::End => "end"@,
        AlignItems::FlexStart => "flex-start"@,
        AlignItems::FlexEnd => "flex-end"@,
        AlignItems::Center => "center"@,
        AlignItems::Baseline => "baseline"@,
        AlignItems::Stretch => "stretch"@,
    }
}

/// Law: each item alignment is given by its own keyword, and by nothing else.
pub proof fn law_align_items_keywords(a: AlignItems, s: Seq<char>)
    ensures
        align_items_of(Some(align_items_keyword(a))) == Some(a),
        align_items_of(Some(s)) == Some(a) ==> s == align_items_keyword(a),
        align_items_of(None) is None,
{
    reveal_strlit("start");
    reveal_strlit("end");
    reveal_strlit("flex-start");
    reveal_strlit("flex-end");
    reveal_strlit("center");
    reveal_strlit("baseline");
    reveal_strlit("stretch");
    assert("flex-end"@[0] != "baseline"@[0]);
    let ks = seq!["start"@, "end"@, "flex-start"@, "flex-end"@, "center"@, "baseline"@, "stretch"@];
    assert forall|i: int, j: int| 0 <= i < j < 7 implies ks[i] != ks[j] by {
        if ks[i].len() == ks[j].len() {
            assert(ks[i][0] != ks[j][0]);
        }
    }
    assert(ks[0] != ks[4] && ks[1] != ks[4] && ks[2] != ks[4] && ks[3] != ks[4]);
    match a {
        AlignItems::Start => {},
        AlignItems::End => { assert(ks[0] != ks[1]); },
        AlignItems::FlexStart => { assert(ks[0] != ks[2] && ks[1] != ks[2]); },
        AlignItems::FlexEnd => { assert(ks[0] != ks[3] && ks[1] != ks[3] && ks[2] != ks[3]); },
        AlignItems::Center => {},
        AlignItems::Baseline => { assert(ks[0] != ks[5] && ks[1] != ks[5] && ks[2] != ks[5] && ks[3] != ks[5] && ks[4] != ks[5]); },
        AlignItems::Stretch => { assert(ks[0] != ks[6] && ks[1] != ks[6] && ks[2] != ks[6] && ks[3] != ks[6] && ks[4] != ks[6] && ks[5] != ks[6]); },
    }
}

/// The item alignment for value `value` (of `align-self`, `justify-items`, ...).
pub fn parse_align_i(value: Option<&str>) -> (r: Option<AlignItems>)
    ensures
        r == align_items_of(value_view(value)),
{
    let s = match value {
        Some(s) => s,
        None => {
            return None;
        },
    };
    if is(s, "start") {
        Some(AlignItems::Start)
    } else if is(s, "end") {
        Some(AlignItems::End)
    } else if is(s, "flex-start") {
        Some(AlignItems::FlexStart)
    } else if is(s, "flex-end") {
        Some(AlignItems::FlexEnd)
    } else if is(s, "center") {
        Some(AlignItems::Center)
    } else if is(s, "baseline") {
        Some(AlignItems::Baseline)
    } else if is(s, "stretch") {
        Some(AlignItems::Stretch)
    } else {
        None
    }
}

/// The item alignment for `align-items` value `value`.
pub fn parse_align_items(value: Option<&str>) -> (r: Option<AlignItems>)
    ensures
        r == align_items_of(value_view(value)),
{
    parse_align_i(value)
}

/// The self alignment for `align-self` value `value`.
pub fn parse_align_self(value: Option<&str>) -> (r: Option<AlignItems>)
    ensures
        r == align_items_of(value_view(value)),
{
    parse_align_i(value)
}

/// The item alignment for `justify-items` value `value`.
pub fn parse_justify_items(value: Option<&str>) -> (r: Option<AlignItems>)
    ensures
        r == align_items_of(value_view(value)),
{
    parse_align_i(value)
}

/// The self alignment for `justify-self` value `value`.
pub fn parse_justify_self(value: Option<&str>) -> (r: Option<AlignItems>)
    ensures
        r == align_items_of(value_view(value)),
{
    parse_align_i(value)
}

/// How the lines of content are aligned.
#[derive(Debug, Clone, Copy, PartialEq, Eq, Structural)]
pub enum AlignContent {
    Start,
    End,
    FlexStart,
    FlexEnd,
    Center,
    Stretch,
    SpaceBetween,
    SpaceAround,
}

/// What an `align-content` or `justify-content` value gives.
pub open spec fn align_content_of(v: Option<Seq<char>>) -> Option<AlignContent> {
    match v {
        None => None,
        Some(s) => if s == "start"@ {
            Some(AlignContent::Start)
        } else if s == "end"@ {
            Some(AlignContent::End)
        } else if s == "flex-start"@ {
            Some(AlignContent::FlexStart)
        } else if s == "flex-end"@ {
            Some(AlignContent::FlexEnd)
        } else if s == "center"@ {
            Some(AlignContent::Center)
        } else if s == "stretch"@ {
            Some(AlignContent::Stretch)
        } else if s == "space-between"@ {
            Some(AlignContent::SpaceBetween)
        } else if s == "space-around"@ {
            Some(AlignContent::SpaceAround)
        } else {
            None
        },
    }
}

/// The content alignment for value `value` (of `align-content` or `justify-content`).
pub fn parse_align_c(value: Option<&str>) -> (r: Option<AlignContent>)
    ensures
        r == align_content_of(value_view(value)),
{
    let s = match value {
        Some(s) => s,
        None => {
            return None;
        },
    };
    if is(s, "start") {
        Some(AlignContent::Start)
    } else if is(s, "end") {
        Some(AlignContent::End)
    } else if is(s, "flex-start") {
        Some(AlignContent::FlexStart)
    } else if is(s, "flex-end") {
        Some(AlignContent::FlexEnd)
    } else if is(s, "center") {
        Some(AlignContent::Center)
    } else if is(s, "stretch") {
        Some(AlignContent::Stretch)
    } else if is(s, "space-between") {
        Some(AlignContent::SpaceBetween)
    } else if is(s, "space-around") {
        Some(AlignContent::SpaceAround)
    } else {
        None
    }
}

/// The content alignment for `align-content` value `value`.
pub fn parse_align_content(value: Option<&str>) -> (r: Option<AlignContent>)
    ensures
        r == align_content_of(value_view(value)),
{
    parse_align_c(value)
}

/// The content alignment for `justify-content` value `value`.
pub fn parse_justify_content(value: Option<&str>) -> (r: Option<AlignContent>)
    ensures
        r == align_content_of(value_view(value)),
{
    parse_align_c(value)
}

/// The direction of the main axis of a flex container.
#[derive(Debug, Clone, Copy, PartialEq, Eq, Structural)]
pub enum FlexDirection {
    Row,
    RowReverse,
    Column,
    ColumnReverse,
}

/// What `flex-direction` gives; a row by default.
pub open spec fn flex_direction_of(v: Option<Seq<char>>) -> FlexDirection {
    match v {
        Some(s) => if s == "row-reverse"@ {
            FlexDirection::RowReverse
        } else if s == "column"@ {
            FlexDirection::Column
        } else if s == "column-reverse"@ {
            FlexDirection::ColumnReverse
        } else {
            FlexDirection::Row
        },
        None => FlexDirection::Row,
    }
}

/// The flex direction for `flex-direction` value `value`.
pub fn parse_flex_direction(value: Option<&str>) -> (r: FlexDirection)
    ensures
        r == flex_direction_of(value_view(value)),
{
    match value {
        Some(s) => if is(s, "row-reverse") {
            FlexDirection::RowReverse
        } else if is(s, "column") {
            FlexDirection::Column
        } else if is(s, "column-reverse") {
            FlexDirection::ColumnReverse
        } else {
            FlexDirection::Row
        },
        None => FlexDirection::Row,
    }
}

/// Whether flex items wrap onto more lines.
#[derive(Debug, Clone, Copy, PartialEq, Eq, Structural)]
pub enum FlexWrap {
    NoWrap,
    Wrap,
    WrapReverse,
}

/// What `flex-wrap` gives; no wrapping by default.
pub open spec fn flex_wrap_of(v: Option<Seq<char>>) -> FlexWrap {
    match v {
        Some(s) => if s == "wrap"@ {
            FlexWrap::Wrap
        } else if s == "wrap-reverse"@ {
            FlexWrap::WrapReverse
        } else {
            FlexWrap::NoWrap
        },
        None => FlexWrap::NoWrap,
    }
}

/// The wrapping for `flex-wrap` value `value`.
pub fn parse_flex_wrap(value: Option<&str>) -> (r: FlexWrap)
    ensures
        r == flex_wrap_of(value_view(value)),
{
    match value {
        Some(s) => if is(s, "wrap") {
            FlexWrap::Wrap
        } else if is(s, "wrap-reverse") {
            FlexWrap::WrapReverse
        } else {
            FlexWrap::NoWrap
        },
        None => FlexWrap::NoWrap,
    }
}

/// How grid items without a place are placed.
#[derive(Debug, Clone, Copy, PartialEq, Eq, Structural)]
pub enum GridAutoFlow {
    Row,
    Column,
    RowDense,
    ColumnDense,
}

/// What `grid-auto-flow` gives; by row by default.
pub open spec fn grid_auto_flow_of(v: Option<Seq<char>>) -> GridAutoFlow {
    match v {
        Some(s) => if s == "column"@ {
            GridAutoFlow::Column
        } else if s == "row dense"@ {
            GridAutoFlow::RowDense
        } else if s == "column dense"@ {
            GridAutoFlow::ColumnDense
        } else {
            GridAutoFlow::Row
        },
        None => GridAutoFlow::Row,
    }
}

/// The auto flow for `grid-auto-flow` value `value`.
pub fn parse_grid_auto_flow(value: Option<&str>) -> (r: GridAutoFlow)
    ensures
        r == grid_auto_flow_of(value_view(value)),
{
    match value {
        Some(s) => if is(s, "column") {
            GridAutoFlow::Column
        } else if is(s, "row dense") {
            GridAutoFlow::RowDense
        } else if is(s, "column dense") {
            GridAutoFlow::ColumnDense
        } else {
            GridAutoFlow::Row
        },
        None => GridAutoFlow::Row,
    }
}

/// Which box the size of a box is measured on.
#[derive(Debug, Clone, Copy, PartialEq, Eq, Structural)]
pub enum BoxSizing {
    BorderBox,
    ContentBox,
}

/// What `box-sizing` gives; the content box unless `border-box`.
pub open spec fn box_sizing_of(v: Option<Seq<char>>) -> BoxSizing {
    if v == Some("border-box"@) {
        BoxSizing::BorderBox
    } else {
        BoxSizing::ContentBox
    }
}

/// The box sizing for `box-sizing` value `value`.
pub fn parse_box_sizing(value: Option<&str>) -> (r: BoxSizing)
    ensures
        r == box_sizing_of(value_view(value)),
{
    match value {
        Some(s) => if is(s, "border-box") {
            BoxSizing::BorderBox
        } else {
            BoxSizing::ContentBox
        },
        None => BoxSizing::ContentBox,
    }
}

/// The text alignment the layout engine acts on (the legacy vendor values).
#[derive(Debug, Clone, Copy, PartialEq, Eq, Structural)]
pub enum TextAlign {
    Auto,
    LegacyLeft,
    LegacyRight,
    LegacyCenter,
}

/// What `text-align` gives.
pub open spec fn text_align_of(v: Option<Seq<char>>) -> TextAlign {
    match v {
        Some(s) => if s == "-webkit-left"@ || s == "-moz-left"@ {
            TextAlign::LegacyLeft
        } else if s == "-webkit-right"@ || s == "-moz-right"@ {
            TextAlign::LegacyRight
        } else if s == "-webkit-center"@ || s == "-moz-center"@ {
            TextAlign::LegacyCenter
        } else {
            TextAlign::Auto
        },
        None => TextAlign::Auto,
    }
}

/// The text alignment for `text-align` value `value`.
pub fn parse_text_align(value: Option<&str>) -> (r: TextAlign)
    ensures
        r == text_align_of(value_view(value)),
{
    match value {
        Some(s) => if is(s, "-webkit-left") || is(s, "-moz-left") {
            TextAlign::LegacyLeft
        } else if is(s, "-webkit-right") || is(s, "-moz-right") {
            TextAlign::LegacyRight
        } else if is(s, "-webkit-center") || is(s, "-moz-center") {
            TextAlign::LegacyCenter
        } else {
            TextAlign::Auto
        },
        None => TextAlign::Auto,
    }
}

/// The role of a box in a table.
#[derive(Debug, Clone, Copy, PartialEq, Eq, Structural)]
pub enum TableRole {
    Table,
    Caption,
    ColumnGroup,
    Column,
    HeaderGroup,
    FooterGroup,
    RowGroup,
    Row,
    Cell,
    Other,
}

/// What `display` gives as a table role.
pub open spec fn table_role_of(v: Option<Seq<char>>) -> TableRole {
    match v {
        None => TableRole::Other,
        Some(s) => if s == "table"@ {
            TableRole::Table
        } else if s == "table-caption"@ {
            TableRole::Caption
        } else if s == "table-column-group"@ {
            TableRole::ColumnGroup
        } else if s == "table-column"@ {
            TableRole::Column
        } else if s == "table-header-group"@ {
            TableRole::HeaderGroup
        } else if s == "table-footer-group"@ {
            TableRole::FooterGroup
        } else if s == "table-row-group"@ {
            TableRole::RowGroup
        } else if s == "table-row"@ {
            TableRole::Row
        } else if s == "table-cell"@ {
            TableRole::Cell
        } else {
            TableRole::Other
        },
    }
}

/// The table role of a box with `display` value `value`.
pub fn table_role(value: Option<&str>) -> (r: TableRole)
    ensures
        r == table_role_of(value_view(value)),
{
    let s = match value {
        Some(s) => s,
        None => {
            return TableRole::Other;
        },
    };
    if is(s, "table") {
        TableRole::Table
    } else if is(s, "table-caption") {
        TableRole::Caption
    } else if is(s, "table-column-group") {
        TableRole::ColumnGroup
    } else if is(s, "table-column") {
        TableRole::Column
    } else if is(s, "table-header-group") {
        TableRole::HeaderGroup
    } else if is(s, "table-footer-group") {
        TableRole::FooterGroup
    } else if is(s, "table-row-group") {
        TableRole::RowGroup
    } else if is(s, "table-row") {
        TableRole::Row
    } else if is(s, "table-cell") {
        TableRole::Cell
    } else {
        TableRole::Other
    }
}

/// The properties a table layout reads.
#[derive(Debug, Clone, Copy, PartialEq, Eq, Structural)]
pub enum CssProp {
    Width,
    Height,
    MinWidth,
    MinHeight,
    MaxWidth,
    MaxHeight,
    BorderTopWidth,
    BorderRightWidth,
    BorderBottomWidth,
    BorderLeftWidth,
    PaddingTop,
    PaddingRight,
    PaddingBottom,
    PaddingLeft,
    BorderCollapse,
    BorderSpacingX,
    BorderSpacingY,
    TableLayout,
    VerticalAlign,
    CaptionSide,
}

/// The name of the CSS property that holds `prop` (both border spacings are in
/// `border-spacing`).
pub open spec fn css_prop_name(prop: CssProp) -> Seq<char> {
    match prop {
        CssProp::Width => "width"@,
        CssProp::Height => "height"@,
        CssProp::MinWidth => "min-width"@,
        CssProp::MinHeight => "min-height"@,
        CssProp::MaxWidth => "max-width"@,
        CssProp::MaxHeight => "max-height"@,
        CssProp::BorderTopWidth => "border-top-width"@,
        CssProp::BorderRightWidth => "border-right-width"@,
        CssProp::BorderBottomWidth => "border-bottom-width"@,
        CssProp::BorderLeftWidth => "border-left-width"@,
        CssProp::PaddingTop => "padding-top"@,
        CssProp::PaddingRight => "padding-right"@,
        CssProp::PaddingBottom => "padding-bottom"@,
        CssProp::PaddingLeft => "padding-left"@,
        CssProp::BorderCollapse => "border-collapse"@,
        CssProp::BorderSpacingX => "border-spacing"@,
        CssProp::BorderSpacingY => "border-spacing"@,
        CssProp::TableLayout => "table-layout"@,
        CssProp::VerticalAlign => "vertical-align"@,
        CssProp::CaptionSide => "caption-side"@,
    }
}

/// The name of the CSS property that holds `prop`.
pub fn prop_name(prop: CssProp) -> (r: &'static str)
    ensures
        r@ == css_prop_name(prop),
{
    match prop {
        CssProp::Width => "width",
        CssProp::Height => "height",
        CssProp::MinWidth => "min-width",
        CssProp::MinHeight => "min-height",
        CssProp::MaxWidth => "max-width",
        CssProp::MaxHeight => "max-height",
        CssProp::BorderTopWidth => "border-top-width",
        CssProp::BorderRightWidth => "border-right-width",
        CssProp::BorderBottomWidth => "border-bottom-width",
        CssProp::BorderLeftWidth => "border-left-width",
        CssProp::PaddingTop => "padding-top",
        CssProp::PaddingRight => "padding-right",
        CssProp::PaddingBottom => "padding-bottom",
        CssProp::PaddingLeft => "padding-left",
        CssProp::BorderCollapse => "border-collapse",
        CssProp::BorderSpacingX | CssProp::BorderSpacingY => "border-spacing",
        CssProp::TableLayout => "table-layout",
        CssProp::VerticalAlign => "vertical-align",
        CssProp::CaptionSide => "caption-side",
    }
}

/// Where a grid item is placed on an axis.
#[derive(Debug, Clone, Copy, PartialEq, Eq, Structural)]
pub enum GridPlacement {
    Auto,
    /// At a line (counted from the end when negative).
    Line(i16),
    /// Spanning this many tracks.
    Span(u16),
}

/// The integer written by `s`: an optional `+` (or `-` when `signed`) and at least one
/// decimal digit, nothing else (what `str::parse` accepts for an integer type).
pub open spec fn integer_text(s: Seq<char>, signed: bool) -> Option<int> {
    let digits = integer_digits(s, signed);
    if digits.len() > 0 && all_digits(digits) {
        Some(
            if integer_negative(s, signed) {
                -(decimal_value(digits) as int)
            } else {
                decimal_value(digits) as int
            },
        )
    } else {
        None
    }
}

/// The integer text `s` starts with a minus sign.
pub open spec fn integer_negative(s: Seq<char>, signed: bool) -> bool {
    signed && s.len() > 0 && s[0] == '-'
}

/// The digits of integer text `s`, after its sign.
pub open spec fn integer_digits(s: Seq<char>, signed: bool) -> Seq<char> {
    if s.len() > 0 && (s[0] == '+' || integer_negative(s, signed)) {
        s.drop_first()
    } else {
        s
    }
}

/// Every character of `d` is a decimal digit.
pub open spec fn all_digits(d: Seq<char>) -> bool {
    forall|i: int| 0 <= i < d.len() ==> is_digit(#[trigger] d[i])
}

/// `s` with `p` taken off its front as many times as it occurs there.
pub open spec fn strip_prefixes(s: Seq<char>, p: Seq<char>) -> Seq<char>
    decreases s.len(),
{
    if p.len() > 0 && p.len() <= s.len() && s.subrange(0, p.len() as int) == p {
        strip_prefixes(s.subrange(p.len() as int, s.len() as int), p)
    } else {
        s
    }
}

/// The word `span`.
pub open spec fn span_word() -> Seq<char> {
    seq!['s', 'p', 'a', 'n']
}

/// What a `grid-row-start` (or similar) string gives: `span` and a count of tracks, or a
/// line number; anything else is automatic.
pub open spec fn grid_placement_of(s: Seq<char>) -> GridPlacement {
    if s.len() >= 4 && s.subrange(0, 4) == span_word() {
        match integer_text(trim(strip_prefixes(s, span_word())), false) {
            Some(v) => if v <= u16::MAX {
                GridPlacement::Span(v as u16)
            } else {
                GridPlacement::Auto
            },
            None => GridPlacement::Auto,
        }
    } else {
        match integer_text(s, true) {
            Some(v) => if i16::MIN <= v <= i16::MAX {
                GridPlacement::Line(v as i16)
            } else {
                GridPlacement::Auto
            },
            None => GridPlacement::Auto,
        }
    }
}

/// The integer written by `s`, when it lies within a hundred thousand of zero.
fn small_integer(s: &Vec<char>, signed: bool) -> (r: Option<i32>)
    ensures
        match integer_text(s@, signed) {
            Some(v) => if -100000 <= v <= 100000 {
                r == Some(v as i32)
            } else {
                r is None
            },
            None => r is None,
        },
{
    let negative = signed && s.len() > 0 && s[0] == '-';
    let start: usize = if s.len() > 0 && (s[0] == '+' || negative) {
        1
    } else {
        0
    };
    let ghost digits = s@.skip(start as int);
    assert(digits =~= integer_digits(s@, signed));
    if start >= s.len() {
        return None;
    }
    let mut acc: u64 = 0;
    let mut i: usize = start;
    assert(digits.take(0) =~= Seq::<char>::empty());
    while i < s.len()
        invariant
            start <= i <= s.len(),
            digits == s@.skip(start as int),
            negative == integer_negative(s@, signed),
            digits == integer_digits(s@, signed),
            forall|k: int| 0 <= k < i - start ==> is_digit(#[trigger] digits[k]),
            acc == if decimal_value(digits.take(i - start)) <= 100000 {
                decimal_value(digits.take(i - start)) as int
            } else {
                100001
            },
        decreases s.len() - i,
    {
        let c = s[i];
        if !('0' <= c && c <= '9') {
            assert(digits[i - start] == c);
            assert(!is_digit(digits[i - start]));
            assert(!all_digits(digits));
            return None;
        }
        let ghost t = digits.take(i - start + 1);
        assert(t.drop_last() =~= digits.take(i - start));
        assert(t.last() == c);
        let d = (c as u32 - '0' as u32) as u64;
        if acc <= 100000 {
            let n = acc * 10 + d;
            acc = if n <= 100000 {
                n
            } else {
                100001
            };
        }
        i += 1;
    }
    assert(digits.take(i - start) =~= digits);
    if acc > 100000 {
        return None;
    }
    let v = acc as i32;
    if negative {
        Some(-v)
    } else {
        Some(v)
    }
}

/// The placement written `span` and a count of tracks (`s` starts with `span`).
fn span_placement(s: &Vec<char>) -> (r: GridPlacement)
    requires
        s@.len() >= 4,
        s@.subrange(0, 4) == span_word(),
    ensures
        r == grid_placement_of(s@),
{
    let mut i: usize = 0;
    assert(s@.skip(0) =~= s@);
    while i <= s.len() - 4 && s[i] == 's' && s[i + 1] == 'p' && s[i + 2] == 'a' && s[i + 3] == 'n'
        invariant
            i <= s.len(),
            s.len() >= 4,
            strip_prefixes(s@, span_word()) == strip_prefixes(s@.skip(i as int), span_word()),
        decreases s.len() - i,
    {
        let ghost t = s@.skip(i as int);
        assert(t.subrange(0, 4) =~= span_word());
        assert(t.subrange(4, t.len() as int) =~= s@.skip(i + 4));
        i += 4;
    }
    proof {
        let t = s@.skip(i as int);
        if t.len() >= 4 && t.subrange(0, 4) == span_word() {
            assert(t.subrange(0, 4)[0] == 's' && t.subrange(0, 4)[1] == 'p');
            assert(t.subrange(0, 4)[2] == 'a' && t.subrange(0, 4)[3] == 'n');
            assert(t[0] == 's' && t[1] == 'p' && t[2] == 'a' && t[3] == 'n');
        }
    }
    let mut rest: Vec<char> = Vec::new();
    let mut k: usize = i;
    while k < s.len()
        invariant
            i <= k <= s.len(),
            rest@ == s@.subrange(i as int, k as int),
        decreases s.len() - k,
    {
        rest.push(s[k]);
        assert(rest@ =~= s@.subrange(i as int, k + 1));
        k += 1;
    }
    assert(rest@ =~= s@.skip(i as int));
    let t = trim_chars(&rest);
    match small_integer(&t, false) {
        Some(v) => if v <= 65535 {
            GridPlacement::Span(v as u16)
        } else {
            GridPlacement::Auto
        },
        None => GridPlacement::Auto,
    }
}

/// The placement for string value `value` of a grid placement property.
pub fn parse_grid_placement(value: Option<&str>) -> (r: GridPlacement)
    ensures
        r == match value_view(value) {
            Some(s) => grid_placement_of(s),
            None => GridPlacement::Auto,
        },
{
    let s = match value {
        Some(s) => chars_of(s),
        None => {
            return GridPlacement::Auto;
        },
    };
    if s.len() >= 4 && s[0] == 's' && s[1] == 'p' && s[2] == 'a' && s[3] == 'n' {
        assert(s@.subrange(0, 4) =~= span_word());
        span_placement(&s)
    } else {
        proof {
            if s@.len() >= 4 && s@.subrange(0, 4) == span_word() {
                assert(s@.subrange(0, 4)[0] == 's' && s@.subrange(0, 4)[1] == 'p');
                assert(s@.subrange(0, 4)[2] == 'a' && s@.subrange(0, 4)[3] == 'n');
            }
        }
        match small_integer(&s, true) {
            Some(v) => if -32768 <= v && v <= 32767 {
                GridPlacement::Line(v as i16)
            } else {
                GridPlacement::Auto
            },
            None => GridPlacement::Auto,
        }
    }
}

/// Where an item starts and ends in a grid, along one axis.
#[derive(Debug, Clone, Copy, PartialEq, Eq, Structural)]
pub struct Line {
    pub start: GridPlacement,
    pub end: GridPlacement,
}

/// What a placement property with string value `v` gives.
pub open spec fn placement_of(v: Option<Seq<char>>) -> GridPlacement {
    match v {
        Some(s) => grid_placement_of(s),
        None => GridPlacement::Auto,
    }
}

/// The rows of a grid item, from the values of `grid-row-start` and `grid-row-end`.
pub fn parse_grid_row(start: Option<&str>, end: Option<&str>) -> (r: Line)
    ensures
        r.start == placement_of(value_view(start)),
        r.end == placement_of(value_view(end)),
{
    Line { start: parse_grid_placement(start), end: parse_grid_placement(end) }
}

/// The columns of a grid item, from the values of `grid-column-start` and `grid-column-end`.
pub fn parse_grid_column(start: Option<&str>, end: Option<&str>) -> (r: Line)
    ensures
        r.start == placement_of(value_view(start)),
        r.end == placement_of(value_view(end)),
{
    Line { start: parse_grid_placement(start), end: parse_grid_placement(end) }
}

/// How the lines of a paragraph are aligned.
#[derive(Debug, Clone, Copy, PartialEq, Eq, Structural)]
pub enum Alignment {
    Start,
    Middle,
    End,
    Justified,
}

/// What `text-align` gives for laying out text; the start by default.
pub open spec fn alignment_of(v: Option<Seq<char>>) -> Alignment {
    match v {
        Some(s) => if s == "left"@ {
            Alignment::Start
        } else if s == "center"@ {
            Alignment::Middle
        } else if s == "right"@ {
            Alignment::End
        } else if s == "justify"@ {
            Alignment::Justified
        } else {
            Alignment::Start
        },
        None => Alignment::Start,
    }
}

/// The alignment of text for `text-align` value `value`.
pub fn parse_alignment(value: Option<&str>) -> (r: Alignment)
    ensures
        r == alignment_of(value_view(value)),
{
    match value {
        Some(s) => if is(s, "left") {
            Alignment::Start
        } else if is(s, "center") {
            Alignment::Middle
        } else if is(s, "right") {
            Alignment::End
        } else if is(s, "justify") {
            Alignment::Justified
        } else {
            Alignment::Start
        },
        None => Alignment::Start,
    }
}

/// The style of a font.
#[derive(Debug, Clone, Copy, PartialEq, Eq, Structural)]
pub enum FontStyle {
    Normal,
    Italic,
}

/// What `font-style` gives: italic for `italic` and `oblique`.
pub open spec fn font_style_of(v: Option<Seq<char>>) -> FontStyle {
    match v {
        Some(s) => if s == "normal"@ {
            FontStyle::Normal
        } else if s == "italic"@ || s == "oblique"@ {
            FontStyle::Italic
        } else {
            FontStyle::Normal
        },
        None => FontStyle::Normal,
    }
}

/// The font style for `font-style` value `value`.
pub fn parse_font_style(value: Option<&str>) -> (r: FontStyle)
    ensures
        r == font_style_of(value_view(value)),
{
    match value {
        Some(s) => if is(s, "normal") {
            FontStyle::Normal
        } else if is(s, "italic") {
            FontStyle::Italic
        } else if is(s, "oblique") {
            FontStyle::Italic
        } else {
            FontStyle::Normal
        },
        None => FontStyle::Normal,
    }
}

/// Law: the keywords of `display`: `none`, `flex` and `grid` give those boxes, `inline-block`, `inline` and `table` the layouter's own layouts, anything else a block.
pub proof fn law_display_keywords(s: Seq<char>)
    ensures
        display_of(Some("none"@)) == (Display::Hidden, LayoutDisplay::Taffy),
        display_of(Some("flex"@)) == (Display::Flex, LayoutDisplay::Taffy),
        display_of(Some("grid"@)) == (Display::Grid, LayoutDisplay::Taffy),
        display_of(Some("inline-block"@)) == (Display::Block, LayoutDisplay::InlineBlock),
        display_of(Some("inline"@)) == (Display::Block, LayoutDisplay::Inline),
        display_of(Some("table"@)) == (Display::Block, LayoutDisplay::Table),
        display_of(Some(s)) == (Display::Hidden, LayoutDisplay::Taffy) ==> s == "none"@,
        display_of(Some(s)) == (Display::Flex, LayoutDisplay::Taffy) ==> s == "flex"@,
        display_of(Some(s)) == (Display::Grid, LayoutDisplay::Taffy) ==> s == "grid"@,
        display_of(Some(s)) == (Display::Block, LayoutDisplay::InlineBlock) ==> s == "inline-block"@,
        display_of(Some(s)) == (Display::Block, LayoutDisplay::Inline) ==> s == "inline"@,
        display_of(Some(s)) == (Display::Block, LayoutDisplay::Table) ==> s == "table"@,
        s != "none"@ && s != "flex"@ && s != "grid"@ && s != "inline-block"@ && s != "inline"@ && s != "table"@ ==> display_of(Some(s)) == (Display::Block, LayoutDisplay::Taffy),
        display_of(None) == (Display::Block, LayoutDisplay::Taffy),
{
    reveal_strlit("none");
    reveal_strlit("flex");
    reveal_strlit("grid");
    reveal_strlit("inline-block");
    reveal_strlit("inline");
    reveal_strlit("table");
    assert("none"@[0] != "flex"@[0]);
    assert("none"@[0] != "grid"@[0]);
    assert("none"@.len() != "inline-block"@.len());
    assert("none"@.len() != "inline"@.len());
    assert("none"@.len() != "table"@.len());
    assert("flex"@[0] != "grid"@[0]);
    assert("flex"@.len() != "inline-block"@.len());
    assert("flex"@.len() != "inline"@.len());
    assert("flex"@.len() != "table"@.len());
    assert("grid"@.len() != "inline-block"@.len());
    assert("grid"@.len() != "inline"@.len());
    assert("grid"@.len() != "table"@.len());
    assert("inline-block"@.len() != "inline"@.len());
    assert("inline-block"@.len() != "table"@.len());
    assert("inline"@.len() != "table"@.len());
}

/// Law: the keywords of `overflow-x` and `overflow-y`: `hidden` and `scroll` give those, anything else visible.
pub proof fn law_overflow_keywords(s: Seq<char>)
    ensures
        overflow_of("hidden"@) == Overflow::Hidden,
        overflow_of("scroll"@) == Overflow::Scroll,
        overflow_of(s) == Overflow::Hidden ==> s == "hidden"@,
        overflow_of(s) == Overflow::Scroll ==> s == "scroll"@,
        s != "hidden"@ && s != "scroll"@ ==> overflow_of(s) == Overflow::Visible,
{
    reveal_strlit("hidden");
    reveal_strlit("scroll");
    assert("hidden"@[0] != "scroll"@[0]);
}

/// Law: the keywords of `position`: `absolute` gives absolute positioning, anything else relative.
pub proof fn law_position_keywords(s: Seq<char>)
    ensures
        position_of(Some("absolute"@)) == Position::Absolute,
        position_of(Some(s)) == Position::Absolute ==> s == "absolute"@,
        s != "absolute"@ ==> position_of(Some(s)) == Position::Relative,
        position_of(None) == Position::Relative,
{
    reveal_strlit("absolute");
}

/// Law: the keywords of `align-content` and `justify-content`: each keyword gives the alignment of that name, anything else none.
pub proof fn law_align_content_keywords(s: Seq<char>)
    ensures
        align_content_of(Some("start"@)) == Some(AlignContent::Start),
        align_content_of(Some("end"@)) == Some(AlignContent::End),
        align_content_of(Some("flex-start"@)) == Some(AlignContent::FlexStart),
        align_content_of(Some("flex-end"@)) == Some(AlignContent::FlexEnd),
        align_content_of(Some("center"@)) == Some(AlignContent::Center),
        align_content_of(Some("stretch"@)) == Some(AlignContent::Stretch),
        align_content_of(Some("space-between"@)) == Some(AlignContent::SpaceBetween),
        align_content_of(Some("space-around"@)) == Some(AlignContent::SpaceAround),
        align_content_of(Some(s)) == Some(AlignContent::Start) ==> s == "start"@,
        align_content_of(Some(s)) == Some(AlignContent::End) ==> s == "end"@,
        align_content_of(Some(s)) == Some(AlignContent::FlexStart) ==> s == "flex-start"@,
        align_content_of(Some(s)) == Some(AlignContent::FlexEnd) ==> s == "flex-end"@,
        align_content_of(Some(s)) == Some(AlignContent::Center) ==> s == "center"@,
        align_content_of(Some(s)) == Some(AlignContent::Stretch) ==> s == "stretch"@,
        align_content_of(Some(s)) == Some(AlignContent::SpaceBetween) ==> s == "space-between"@,
        align_content_of(Some(s)) == Some(AlignContent::SpaceAround) ==> s == "space-around"@,
        s != "start"@ && s != "end"@ && s != "flex-start"@ && s != "flex-end"@ && s != "center"@ && s != "stretch"@ && s != "space-between"@ && s != "space-around"@ ==> align_content_of(Some(s)) is None,
        align_content_of(None) is None,
{
    reveal_strlit("start");
    reveal_strlit("end");
    reveal_strlit("flex-start");
    reveal_strlit("flex-end");
    reveal_strlit("center");
    reveal_strlit("stretch");
    reveal_strlit("space-between");
    reveal_strlit("space-around");
    assert("start"@.len() != "end"@.len());
    assert("start"@.len() != "flex-start"@.len());
    assert("start"@.len() != "flex-end"@.len());
    assert("start"@.len() != "center"@.len());
    assert("start"@.len() != "stretch"@.len());
    assert("start"@.len() != "space-between"@.len());
    assert("start"@.len() != "space-around"@.len());
    assert("end"@.len() != "flex-start"@.len());
    assert("end"@.len() != "flex-end"@.len());
    assert("end"@.len() != "center"@.len());
    assert("end"@.len() != "stretch"@.len());
    assert("end"@.len() != "space-between"@.len());
    assert("end"@.len() != "space-around"@.len());
    assert("flex-start"@.len() != "flex-end"@.len());
    assert("flex-start"@.len() != "center"@.len());
    assert("flex-start"@.len() != "stretch"@.len());
    assert("flex-start"@.len() != "space-between"@.len());
    assert("flex-start"@.len() != "space-around"@.len());
    assert("flex-end"@.len() != "center"@.len());
    assert("flex-end"@.len() != "stretch"@.len());
    assert("flex-end"@.len() != "space-between"@.len());
    assert("flex-end"@.len() != "space-around"@.len());
    assert("center"@.len() != "stretch"@.len());
    assert("center"@.len() != "space-between"@.len());
    assert("center"@.len() != "space-around"@.len());
    assert("stretch"@.len() != "space-between"@.len());
    assert("stretch"@.len() != "space-around"@.len());
    assert("space-between"@.len() != "space-around"@.len());
}

/// Law: the keywords of `flex-direction`: each keyword gives the direction of that name, anything else a row.
pub proof fn law_flex_direction_keywords(s: Seq<char>)
    ensures
        flex_direction_of(Some("row-reverse"@)) == FlexDirection::RowReverse,
        flex_direction_of(Some("column"@)) == FlexDirection::Column,
        flex_direction_of(Some("column-reverse"@)) == FlexDirection::ColumnReverse,
        flex_direction_of(Some(s)) == FlexDirection::RowReverse ==> s == "row-reverse"@,
        flex_direction_of(Some(s)) == FlexDirection::Column ==> s == "column"@,
        flex_direction_of(Some(s)) == FlexDirection::ColumnReverse ==> s == "column-reverse"@,
        s != "row-reverse"@ && s != "column"@ && s != "column-reverse"@ ==> flex_direction_of(Some(s)) == FlexDirection::Row,
        flex_direction_of(None) == FlexDirection::Row,
{
    reveal_strlit("row-reverse");
    reveal_strlit("column");
    reveal_strlit("column-reverse");
    assert("row-reverse"@.len() != "column"@.len());
    assert("row-reverse"@.len() != "column-reverse"@.len());
    assert("column"@.len() != "column-reverse"@.len());
}

/// Law: the keywords of `flex-wrap`: `wrap` and `wrap-reverse` give those, anything else no wrapping.
pub proof fn law_flex_wrap_keywords(s: Seq<char>)
    ensures
        flex_wrap_of(Some("wrap"@)) == FlexWrap::Wrap,
        flex_wrap_of(Some("wrap-reverse"@)) == FlexWrap::WrapReverse,
        flex_wrap_of(Some(s)) == FlexWrap::Wrap ==> s == "wrap"@,
        flex_wrap_of(Some(s)) == FlexWrap::WrapReverse ==> s == "wrap-reverse"@,
        s != "wrap"@ && s != "wrap-reverse"@ ==> flex_wrap_of(Some(s)) == FlexWrap::NoWrap,
        flex_wrap_of(None) == FlexWrap::NoWrap,
{
    reveal_strlit("wrap");
    reveal_strlit("wrap-reverse");
    assert("wrap"@.len() != "wrap-reverse"@.len());
}

/// Law: the keywords of `grid-auto-flow`: each keyword gives the flow of that name, anything else by row.
pub proof fn law_grid_auto_flow_keywords(s: Seq<char>)
    ensures
        grid_auto_flow_of(Some("column"@)) == GridAutoFlow::Column,
        grid_auto_flow_of(Some("row dense"@)) == GridAutoFlow::RowDense,
        grid_auto_flow_of(Some("column dense"@)) == GridAutoFlow::ColumnDense,
        grid_auto_flow_of(Some(s)) == GridAutoFlow::Column ==> s == "column"@,
        grid_auto_flow_of(Some(s)) == GridAutoFlow::RowDense ==> s == "row dense"@,
        grid_auto_flow_of(Some(s)) == GridAutoFlow::ColumnDense ==> s == "column dense"@,
        s != "column"@ && s != "row dense"@ && s != "column dense"@ ==> grid_auto_flow_of(Some(s)) == GridAutoFlow::Row,
        grid_auto_flow_of(None) == GridAutoFlow::Row,
{
    reveal_strlit("column");
    reveal_strlit("row dense");
    reveal_strlit("column dense");
    assert("column"@.len() != "row dense"@.len());
    assert("column"@.len() != "column dense"@.len());
    assert("row dense"@.len() != "column dense"@.len());
}

/// Law: the keywords of `box-sizing`: `border-box` gives the border box, anything else the content box.
pub proof fn law_box_sizing_keywords(s: Seq<char>)
    ensures
        box_sizing_of(Some("border-box"@)) == BoxSizing::BorderBox,
        box_sizing_of(Some(s)) == BoxSizing::BorderBox ==> s == "border-box"@,
        s != "border-box"@ ==> box_sizing_of(Some(s)) == BoxSizing::ContentBox,
        box_sizing_of(None) == BoxSizing::ContentBox,
{
    reveal_strlit("border-box");
}

/// Law: the keywords of `text-align` for the layout engine: each vendor keyword gives the legacy alignment of its side, anything else auto.
pub proof fn law_text_align_keywords(s: Seq<char>)
    ensures
        text_align_of(Some("-webkit-left"@)) == TextAlign::LegacyLeft,
        text_align_of(Some("-moz-left"@)) == TextAlign::LegacyLeft,
        text_align_of(Some("-webkit-right"@)) == TextAlign::LegacyRight,
        text_align_of(Some("-moz-right"@)) == TextAlign::LegacyRight,
        text_align_of(Some("-webkit-center"@)) == TextAlign::LegacyCenter,
        text_align_of(Some("-moz-center"@)) == TextAlign::LegacyCenter,
        text_align_of(Some(s)) == TextAlign::LegacyLeft ==> s == "-webkit-left"@ || s == "-moz-left"@,
        text_align_of(Some(s)) == TextAlign::LegacyRight ==> s == "-webkit-right"@ || s == "-moz-right"@,
        text_align_of(Some(s)) == TextAlign::LegacyCenter ==> s == "-webkit-center"@ || s == "-moz-center"@,
        s != "-webkit-left"@ && s != "-moz-left"@ && s != "-webkit-right"@ && s != "-moz-right"@ && s != "-webkit-center"@ && s != "-moz-center"@ ==> text_align_of(Some(s)) == TextAlign::Auto,
        text_align_of(None) == TextAlign::Auto,
{
    reveal_strlit("-webkit-left");
    reveal_strlit("-moz-left");
    reveal_strlit("-webkit-right");
    reveal_strlit("-moz-right");
    reveal_strlit("-webkit-center");
    reveal_strlit("-moz-center");
    assert("-webkit-left"@.len() != "-moz-left"@.len());
    assert("-webkit-left"@.len() != "-webkit-right"@.len());
    assert("-webkit-left"@.len() != "-moz-right"@.len());
    assert("-webkit-left"@.len() != "-webkit-center"@.len());
    assert("-webkit-left"@.len() != "-moz-center"@.len());
    assert("-moz-left"@.len() != "-webkit-right"@.len());
    assert("-moz-left"@.len() != "-moz-right"@.len());
    assert("-moz-left"@.len() != "-webkit-center"@.len());
    assert("-moz-left"@.len() != "-moz-center"@.len());
    assert("-webkit-right"@.len() != "-moz-right"@.len());
    assert("-webkit-right"@.len() != "-webkit-center"@.len());
    assert("-webkit-right"@.len() != "-moz-center"@.len());
    assert("-moz-right"@.len() != "-webkit-center"@.len());
    assert("-moz-right"@.len() != "-moz-center"@.len());
    assert("-webkit-center"@.len() != "-moz-center"@.len());
}

/// Law: the keywords of table roles from `display`: each `table` keyword gives the role of that name, anything else none of them.
pub proof fn law_table_role_keywords(s: Seq<char>)
    ensures
        table_role_of(Some("table"@)) == TableRole::Table,
        table_role_of(Some("table-caption"@)) == TableRole::Caption,
        table_role_of(Some("table-column-group"@)) == TableRole::ColumnGroup,
        table_role_of(Some("table-column"@)) == TableRole::Column,
        table_role_of(Some("table-header-group"@)) == TableRole::HeaderGroup,
        table_role_of(Some("table-footer-group"@)) == TableRole::FooterGroup,
        table_role_of(Some("table-row-group"@)) == TableRole::RowGroup,
        table_role_of(Some("table-row"@)) == TableRole::Row,
        table_role_of(Some("table-cell"@)) == TableRole::Cell,
        table_role_of(Some(s)) == TableRole::Table ==> s == "table"@,
        table_role_of(Some(s)) == TableRole::Caption ==> s == "table-caption"@,
        table_role_of(Some(s)) == TableRole::ColumnGroup ==> s == "table-column-group"@,
        table_role_of(Some(s)) == TableRole::Column ==> s == "table-column"@,
        table_role_of(Some(s)) == TableRole::HeaderGroup ==> s == "table-header-group"@,
        table_role_of(Some(s)) == TableRole::FooterGroup ==> s == "table-footer-group"@,
        table_role_of(Some(s)) == TableRole::RowGroup ==> s == "table-row-group"@,
        table_role_of(Some(s)) == TableRole::Row ==> s == "table-row"@,
        table_role_of(Some(s)) == TableRole::Cell ==> s == "table-cell"@,
        s != "table"@ && s != "table-caption"@ && s != "table-column-group"@ && s != "table-column"@ && s != "table-header-group"@ && s != "table-footer-group"@ && s != "table-row-group"@ && s != "table-row"@ && s != "table-cell"@ ==> table_role_of(Some(s)) == TableRole::Other,
        table_role_of(None) == TableRole::Other,
{
    reveal_strlit("table");
    reveal_strlit("table-caption");
    reveal_strlit("table-column-group");
    reveal_strlit("table-column");
    reveal_strlit("table-header-group");
    reveal_strlit("table-footer-group");
    reveal_strlit("table-row-group");
    reveal_strlit("table-row");
    reveal_strlit("table-cell");
    assert("table"@.len() != "table-caption"@.len());
    assert("table"@.len() != "table-column-group"@.len());
    assert("table"@.len() != "table-column"@.len());
    assert("table"@.len() != "table-header-group"@.len());
    assert("table"@.len() != "table-footer-group"@.len());
    assert("table"@.len() != "table-row-group"@.len());
    assert("table"@.len() != "table-row"@.len());
    assert("table"@.len() != "table-cell"@.len());
    assert("table-caption"@.len() != "table-column-group"@.len());
    assert("table-caption"@.len() != "table-column"@.len());
    assert("table-caption"@.len() != "table-header-group"@.len());
    assert("table-caption"@.len() != "table-footer-group"@.len());
    assert("table-caption"@.len() != "table-row-group"@.len());
    assert("table-caption"@.len() != "table-row"@.len());
    assert("table-caption"@.len() != "table-cell"@.len());
    assert("table-column-group"@.len() != "table-column"@.len());
    assert("table-column-group"@[6] != "table-header-group"@[6]);
    assert("table-column-group"@[6] != "table-footer-group"@[6]);
    assert("table-column-group"@.len() != "table-row-group"@.len());
    assert("table-column-group"@.len() != "table-row"@.len());
    assert("table-column-group"@.len() != "table-cell"@.len());
    assert("table-column"@.len() != "table-header-group"@.len());
    assert("table-column"@.len() != "table-footer-group"@.len());
    assert("table-column"@.len() != "table-row-group"@.len());
    assert("table-column"@.len() != "table-row"@.len());
    assert("table-column"@.len() != "table-cell"@.len());
    assert("table-header-group"@[6] != "table-footer-group"@[6]);
    assert("table-header-group"@.len() != "table-row-group"@.len());
    assert("table-header-group"@.len() != "table-row"@.len());
    assert("table-header-group"@.len() != "table-cell"@.len());
    assert("table-footer-group"@.len() != "table-row-group"@.len());
    assert("table-footer-group"@.len() != "table-row"@.len());
    assert("table-footer-group"@.len() != "table-cell"@.len());
    assert("table-row-group"@.len() != "table-row"@.len());
    assert("table-row-group"@.len() != "table-cell"@.len());
    assert("table-row"@.len() != "table-cell"@.len());
}

/// Law: the keywords of `text-align` for text: `center`, `right` and `justify` give the middle, the end and justified lines, anything else the start.
pub proof fn law_alignment_keywords(s: Seq<char>)
    ensures
        alignment_of(Some("left"@)) == Alignment::Start,
        alignment_of(Some("center"@)) == Alignment::Middle,
        alignment_of(Some("right"@)) == Alignment::End,
        alignment_of(Some("justify"@)) == Alignment::Justified,
        alignment_of(Some(s)) == Alignment::Middle ==> s == "center"@,
        alignment_of(Some(s)) == Alignment::End ==> s == "right"@,
        alignment_of(Some(s)) == Alignment::Justified ==> s == "justify"@,
        s != "left"@ && s != "center"@ && s != "right"@ && s != "justify"@ ==> alignment_of(Some(s)) == Alignment::Start,
        alignment_of(None) == Alignment::Start,
{
    reveal_strlit("left");
    reveal_strlit("center");
    reveal_strlit("right");
    reveal_strlit("justify");
    assert("left"@.len() != "center"@.len());
    assert("left"@.len() != "right"@.len());
    assert("left"@.len() != "justify"@.len());
    assert("center"@.len() != "right"@.len());
    assert("center"@.len() != "justify"@.len());
    assert("right"@.len() != "justify"@.len());
}

/// Law: the keywords of `font-style`: `italic` and `oblique` give italic, anything else normal.
pub proof fn law_font_style_keywords(s: Seq<char>)
    ensures
        font_style_of(Some("normal"@)) == FontStyle::Normal,
        font_style_of(Some("italic"@)) == FontStyle::Italic,
        font_style_of(Some("oblique"@)) == FontStyle::Italic,
        font_style_of(Some(s)) == FontStyle::Italic ==> s == "italic"@ || s == "oblique"@,
        s != "normal"@ && s != "italic"@ && s != "oblique"@ ==> font_style_of(Some(s)) == FontStyle::Normal,
        font_style_of(None) == FontStyle::Normal,
{
    reveal_strlit("normal");
    reveal_strlit("italic");
    reveal_strlit("oblique");
    assert("normal"@[0] != "italic"@[0]);
    assert("normal"@.len() != "oblique"@.len());
    assert("italic"@.len() != "oblique"@.len());
}

} // verus!
