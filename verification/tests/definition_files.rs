use gosub::css_definitions::{
    parse_mdn_definition_files, parse_mdn_functions_file, parse_mdn_property_file, parse_mdn_syntax_file,
    FunctionEntry, MdnPropertyEntry,
};
use gosub::css_value::{CssValue, Number};
use gosub::definition_files::{
    definition_name, parse_property_file, parse_syntax_file, strings_value, PropertyEntry, Strings, SyntaxEntry,
};
use gosub::property_definitions::pars_definition_files;
use gosub::shorthands::Multiplier;

fn px(v: &str) -> CssValue {
    CssValue::Unit(Number { text: v.to_string() }, "px".to_string())
}

fn syntax_entry(name: &str, syntax: &str) -> SyntaxEntry {
    SyntaxEntry { name: name.to_string(), syntax: syntax.to_string() }
}

fn property_entry(name: &str, syntax: &str, computed: Strings) -> PropertyEntry {
    PropertyEntry {
        name: name.to_string(),
        syntax: syntax.to_string(),
        computed,
        initial_value: None,
        inherited: false,
    }
}

fn sides() -> Strings {
    Strings::List(vec![
        "margin-top".to_string(),
        "margin-right".to_string(),
        "margin-bottom".to_string(),
        "margin-left".to_string(),
    ])
}

#[test]
fn names_lose_their_quotes_and_brackets() {
    assert_eq!(definition_name("\"<length>\""), "length");
    assert_eq!(definition_name("\"color\""), "color");
    assert_eq!(definition_name("<x"), "x");
    assert_eq!(definition_name("\""), "");
    assert_eq!(definition_name("plain"), "plain");
}

#[test]
fn string_fields_give_lists() {
    assert_eq!(strings_value(&Strings::Single("color".to_string())), vec!["color".to_string()]);
    assert_eq!(strings_value(&Strings::Other), Vec::<String>::new());
    assert_eq!(strings_value(&sides()).len(), 4);
}

#[test]
fn syntaxes_that_do_not_compile_are_left_out() {
    let entries = vec![
        syntax_entry("\"<length-percentage>\"", "<length> | <percentage>"),
        syntax_entry("\"<broken>\"", "[ left"),
        syntax_entry("\"<length-percentage>\"", "<length>"),
    ];
    let defs = parse_syntax_file(&entries);
    assert_eq!(defs.len(), 1);
    assert_eq!(defs[0].0, "length-percentage");
    assert!(!defs[0].1.resolved);
    // the later entry replaced the earlier one
    assert_eq!(defs[0].1.syntax.components.len(), 1);
    assert!(!defs[0].1.syntax.components[0].is_group());
}

#[test]
fn properties_are_collected_by_name() {
    let mut color = property_entry("color", "<named-color>", Strings::Single("color".to_string()));
    color.inherited = true;
    color.initial_value = Some(CssValue::String("black".to_string()));
    let entries = vec![property_entry("margin", "auto", sides()), color];
    let defs = parse_property_file(&entries);
    assert_eq!(defs.len(), 2);
    assert_eq!(defs[0].0, "margin");
    assert_eq!(defs[0].1.computed.len(), 4);
    assert!(defs[0].1.shorthands.is_none());
    assert_eq!(defs[1].0, "color");
    assert!(defs[1].1.inherited);
    assert_eq!(defs[1].1.initial_value, Some(CssValue::String("black".to_string())));
    assert_eq!(defs[1].1.computed, vec!["color".to_string()]);
    assert!(!defs[1].1.resolved);
}

#[test]
fn the_definition_files_are_resolved_and_indexed() {
    let syntax = vec![syntax_entry("\"<length-percentage>\"", "<length> | <percentage>")];
    let properties = vec![
        property_entry("margin", "<length-percentage>{1,4}", sides()),
        property_entry("margin-top", "<length-percentage>", Strings::Single("margin-top".to_string())),
    ];
    let defs = pars_definition_files(&syntax, &properties);
    assert_eq!(defs.len(), 2);
    let margin = defs.find_property("margin").unwrap();
    assert!(margin.resolved);
    assert!(margin.matches(&[px("1"), px("2")]));
    assert_eq!(margin.shorthands.as_ref().unwrap().get_resolver().multiplier, Multiplier::QuadMulti);
    let top = defs.find_property("margin-top").unwrap();
    assert!(top.shorthands.is_none());
    assert!(top.matches(&[px("1")]));
    assert!(!top.matches(&[px("1"), px("2")]));
}

fn mdn_property(name: &str, syntax: &str, url: &str) -> MdnPropertyEntry {
    MdnPropertyEntry { property: property_entry(name, syntax, Strings::Other), mdn_url: url.to_string() }
}

#[test]
fn mdn_files_keep_names_and_urls() {
    let functions = vec![FunctionEntry {
        name: "\"rgb()\"".to_string(),
        syntax: "<percentage>{3}".to_string(),
        mdn_url: "\"https://developer.mozilla.org/rgb\"".to_string(),
    }];
    let f = parse_mdn_functions_file(&functions);
    assert_eq!(f.len(), 1);
    assert_eq!(f[0].0, "\"rgb()\"");
    assert_eq!(f[0].1.name, "\"rgb()\"");
    assert_eq!(f[0].1.mdn_url, "\"https://developer.mozilla.org/rgb\"");

    let s = parse_mdn_syntax_file(&[syntax_entry("length-percentage", "<length> | <percentage>"), syntax_entry("bad", "[")]);
    assert_eq!(s.len(), 1);
    assert_eq!(s[0].0, "length-percentage");
    assert_eq!(s[0].1.name, "length-percentage");

    let p = parse_mdn_property_file(&[mdn_property("width", "auto | <length>", "https://mdn/width")]);
    assert_eq!(p.len(), 1);
    assert_eq!(p[0].1.mdn_url, "https://mdn/width");
    assert!(!p[0].1.resolved);
}

#[test]
fn mdn_definition_files_are_resolved() {
    let syntax = vec![syntax_entry("length-percentage", "<length> | <percentage>")];
    let properties = vec![mdn_property("padding-top", "<length-percentage>", "https://mdn/padding-top")];
    let defs = parse_mdn_definition_files(&[], &syntax, &properties);
    assert_eq!(defs.len(), 1);
    let p = defs.find_property("padding-top").unwrap();
    assert!(p.resolved);
    assert_eq!(p.mdn_url, "https://mdn/padding-top");
    assert!(defs.functions.is_empty());
    assert_eq!(defs.syntax.len(), 1);
}
