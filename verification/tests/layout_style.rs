use gosub::layout_style::{
    parse_alignment, parse_font_style, Alignment, FontStyle,
    parse_align_c, parse_align_i, parse_align_items, parse_box_sizing, parse_display, parse_flex_direction,
    parse_flex_wrap, parse_grid_auto_flow, parse_grid_placement, parse_overflow, parse_position, parse_text_align,
    prop_name, table_role, AlignContent, AlignItems, BoxSizing, CssProp, Display, FlexDirection, FlexWrap,
    GridAutoFlow, GridPlacement, LayoutDisplay, Overflow, Position, TableRole, TextAlign,
    parse_align_content, parse_align_self, parse_grid_column, parse_grid_row, parse_justify_content,
    parse_justify_items, parse_justify_self, Line,
};

#[test]
fn display_keywords() {
    assert_eq!(parse_display(None), (Display::Block, LayoutDisplay::Taffy));
    assert_eq!(parse_display(Some("none")), (Display::Hidden, LayoutDisplay::Taffy));
    assert_eq!(parse_display(Some("flex")), (Display::Flex, LayoutDisplay::Taffy));
    assert_eq!(parse_display(Some("grid")), (Display::Grid, LayoutDisplay::Taffy));
    assert_eq!(parse_display(Some("inline-block")), (Display::Block, LayoutDisplay::InlineBlock));
    assert_eq!(parse_display(Some("inline")), (Display::Block, LayoutDisplay::Inline));
    assert_eq!(parse_display(Some("table")), (Display::Block, LayoutDisplay::Table));
    assert_eq!(parse_display(Some("list-item")), (Display::Block, LayoutDisplay::Taffy));
}

#[test]
fn overflow_per_axis() {
    assert_eq!(parse_overflow(None, None), (Overflow::Visible, Overflow::Visible));
    assert_eq!(parse_overflow(Some("hidden"), Some("scroll")), (Overflow::Hidden, Overflow::Scroll));
    assert_eq!(parse_overflow(Some("auto"), None), (Overflow::Visible, Overflow::Visible));
}

#[test]
fn position_and_box_sizing() {
    assert_eq!(parse_position(Some("absolute")), Position::Absolute);
    assert_eq!(parse_position(Some("fixed")), Position::Relative);
    assert_eq!(parse_position(None), Position::Relative);
    assert_eq!(parse_box_sizing(Some("border-box")), BoxSizing::BorderBox);
    assert_eq!(parse_box_sizing(Some("content-box")), BoxSizing::ContentBox);
    assert_eq!(parse_box_sizing(None), BoxSizing::ContentBox);
}

#[test]
fn alignment_keywords() {
    assert_eq!(parse_align_i(Some("baseline")), Some(AlignItems::Baseline));
    assert_eq!(parse_align_items(Some("flex-end")), Some(AlignItems::FlexEnd));
    assert_eq!(parse_align_i(Some("space-between")), None);
    assert_eq!(parse_align_i(None), None);
    assert_eq!(parse_align_c(Some("space-between")), Some(AlignContent::SpaceBetween));
    assert_eq!(parse_align_c(Some("space-around")), Some(AlignContent::SpaceAround));
    assert_eq!(parse_align_c(Some("baseline")), None);
}

#[test]
fn flex_and_grid_flow() {
    assert_eq!(parse_flex_direction(Some("column-reverse")), FlexDirection::ColumnReverse);
    assert_eq!(parse_flex_direction(Some("sideways")), FlexDirection::Row);
    assert_eq!(parse_flex_wrap(Some("wrap-reverse")), FlexWrap::WrapReverse);
    assert_eq!(parse_flex_wrap(None), FlexWrap::NoWrap);
    assert_eq!(parse_grid_auto_flow(Some("column dense")), GridAutoFlow::ColumnDense);
    assert_eq!(parse_grid_auto_flow(Some("dense")), GridAutoFlow::Row);
}

#[test]
fn legacy_text_alignment() {
    assert_eq!(parse_text_align(Some("-moz-center")), TextAlign::LegacyCenter);
    assert_eq!(parse_text_align(Some("-webkit-left")), TextAlign::LegacyLeft);
    assert_eq!(parse_text_align(Some("right")), TextAlign::Auto);
}

#[test]
fn grid_placements() {
    assert_eq!(parse_grid_placement(None), GridPlacement::Auto);
    assert_eq!(parse_grid_placement(Some("3")), GridPlacement::Line(3));
    assert_eq!(parse_grid_placement(Some("-2")), GridPlacement::Line(-2));
    assert_eq!(parse_grid_placement(Some("+7")), GridPlacement::Line(7));
    assert_eq!(parse_grid_placement(Some("span 2")), GridPlacement::Span(2));
    assert_eq!(parse_grid_placement(Some("spanspan 4")), GridPlacement::Span(4));
    assert_eq!(parse_grid_placement(Some("span -1")), GridPlacement::Auto);
    assert_eq!(parse_grid_placement(Some("span")), GridPlacement::Auto);
    assert_eq!(parse_grid_placement(Some("40000")), GridPlacement::Auto);
    assert_eq!(parse_grid_placement(Some("span 65535")), GridPlacement::Span(65535));
    assert_eq!(parse_grid_placement(Some("-32768")), GridPlacement::Line(-32768));
    assert_eq!(parse_grid_placement(Some("auto")), GridPlacement::Auto);
    assert_eq!(parse_grid_placement(Some(" 3")), GridPlacement::Auto);
}

#[test]
fn table_roles() {
    assert_eq!(table_role(Some("table-row")), TableRole::Row);
    assert_eq!(table_role(Some("table-cell")), TableRole::Cell);
    assert_eq!(table_role(Some("table-caption")), TableRole::Caption);
    assert_eq!(table_role(Some("block")), TableRole::Other);
    assert_eq!(table_role(None), TableRole::Other);
    assert_eq!(prop_name(CssProp::BorderSpacingY), "border-spacing");
    assert_eq!(prop_name(CssProp::MinHeight), "min-height");
}

#[test]
fn text_alignment_and_font_style() {
    assert_eq!(parse_alignment(Some("left")), Alignment::Start);
    assert_eq!(parse_alignment(Some("center")), Alignment::Middle);
    assert_eq!(parse_alignment(Some("right")), Alignment::End);
    assert_eq!(parse_alignment(Some("justify")), Alignment::Justified);
    assert_eq!(parse_alignment(Some("start")), Alignment::Start);
    assert_eq!(parse_alignment(None), Alignment::Start);
    assert_eq!(parse_font_style(Some("italic")), FontStyle::Italic);
    assert_eq!(parse_font_style(Some("oblique")), FontStyle::Italic);
    assert_eq!(parse_font_style(Some("normal")), FontStyle::Normal);
    assert_eq!(parse_font_style(Some("bold")), FontStyle::Normal);
    assert_eq!(parse_font_style(None), FontStyle::Normal);
}

#[test]
fn self_and_justify_alignments_read_item_keywords() {
    assert_eq!(parse_align_self(Some("baseline")), Some(AlignItems::Baseline));
    assert_eq!(parse_justify_items(Some("flex-end")), Some(AlignItems::FlexEnd));
    assert_eq!(parse_justify_self(Some("space-between")), None);
    assert_eq!(parse_justify_self(None), None);
    assert_eq!(parse_align_content(Some("space-around")), Some(AlignContent::SpaceAround));
    assert_eq!(parse_justify_content(Some("baseline")), None);
    assert_eq!(parse_justify_content(Some("center")), Some(AlignContent::Center));
}

#[test]
fn grid_rows_and_columns_read_both_ends() {
    let row = parse_grid_row(Some("2"), Some("span 3"));
    assert_eq!(row, Line { start: GridPlacement::Line(2), end: GridPlacement::Span(3) });
    let column = parse_grid_column(None, Some("-1"));
    assert_eq!(column, Line { start: GridPlacement::Auto, end: GridPlacement::Line(-1) });
}
