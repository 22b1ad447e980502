use vstd::prelude::*;

pub mod calc;
pub mod cascade;
pub mod css_colors;
pub mod css_definitions;
pub mod css_shorthands;
pub mod css_value;
pub mod definition_files;
pub mod errors;
pub mod functions;
pub mod layout_style;
pub mod property_definitions;
pub mod property_list;
pub mod render_tree;
pub mod scan;
pub mod shorthands;
pub mod styling;
pub mod syntax;
pub mod syntax_matcher;
pub mod syntax_parser;
pub mod testing;
pub mod text;
pub mod typeface;
pub mod useragent;
pub mod web_platform;

verus! {
} // verus!
