# gosub

The styling core of a web browser engine, written in Verus: the CSS value definition
syntax and its matcher, the property definitions and how their type references resolve,
shorthand expansion, the cascade, the render tree, and the keyword values that the layouter
reads. Every function in `src/` has a contract that Verus proves.

## Layout

- `src/syntax.rs`, `src/syntax_parser.rs`: CSS value definition syntax (`[ left | right ]
  <length>?`) compiled to a tree of components, with the precedence of the combinators.
- `src/syntax_matcher.rs`: matching a list of CSS values against a syntax tree.
- `src/property_definitions.rs`, `src/css_definitions.rs`, `src/definition_files.rs`: the
  property and syntax definitions, collected from the entries of the definition files and
  resolved.
- `src/shorthands.rs`, `src/css_shorthands.rs`, `src/property_list.rs`: shorthand properties
  and their longhands.
- `src/cascade.rs`, `src/styling.rs`: declarations, their priority in the cascade, and the
  properties of a node.
- `src/render_tree.rs`: the render tree: nodes, the declarations of the matching rules
  collected per node, the text a text node renders, runs of inline children wrapped in
  anonymous boxes, nodes that are not rendered removed.
- `src/layout_style.rs`: what the layouter makes of keyword values (`display`, `align-items`,
  grid placement, ...).
- `src/calc.rs`, `src/css_colors.rs`, `src/css_value.rs`, `src/functions.rs`, `src/scan.rs`,
  `src/text.rs`: values, colors, `calc()` and `var()`, and text scanning.
- `src/web_platform.rs`, `src/useragent.rs`, `src/typeface.rs`, `src/testing/`: callbacks and
  input event listeners, window options and the set of open windows, fonts, and the
  tree-construction test format.
- `app/`: what stays outside the verified library: the tokio executor, the error type with
  its `std::error::Error` impl, floating-point `calc()` evaluation, reading the JSON
  definition files, and printing the render tree.
- `tests/`: the tests, run against the compiled library.
