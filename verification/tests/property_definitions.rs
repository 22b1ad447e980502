use gosub::css_value::{CssValue, Number};
use gosub::property_definitions::{CssDefinitions, PropertyDefinition, SyntaxDefinition};
use gosub::shorthands::Multiplier;
use gosub::syntax::{CssSyntax, GroupCombinators, SyntaxComponent, SyntaxComponentMultiplier};
use gosub::syntax_matcher::CssSyntaxTree;

fn px(v: &str) -> CssValue {
    CssValue::Unit(Number { text: v.to_string() }, "px".to_string())
}

fn tree(src: &str) -> CssSyntaxTree {
    CssSyntax::new(src).compile().unwrap()
}

fn property(name: &str, computed: &[&str], syntax: &str) -> PropertyDefinition {
    PropertyDefinition {
        name: name.to_string(),
        computed: computed.iter().map(|c| c.to_string()).collect(),
        syntax: tree(syntax),
        inherited: false,
        initial_value: None,
        resolved: false,
        shorthands: None,
    }
}

fn syntax_def(src: &str) -> SyntaxDefinition {
    SyntaxDefinition { syntax: tree(src), resolved: false }
}

fn box_sides() -> Vec<String> {
    vec![
        "margin-top".to_string(),
        "margin-right".to_string(),
        "margin-bottom".to_string(),
        "margin-left".to_string(),
    ]
}

#[test]
fn property_definition_accessors() {
    let mut p = property("margin", &["margin-top", "margin-right", "margin-bottom", "margin-left"], "auto");
    assert_eq!(p.name(), "margin");
    assert_eq!(p.expanded_properties(), box_sides());
    assert!(!p.inherited());
    assert!(p.is_shorthand());
    assert!(!p.has_initial_value());
    assert_eq!(p.initial_value(), CssValue::NoneValue);
    p.initial_value = Some(px("0"));
    assert!(p.has_initial_value());
    assert_eq!(p.initial_value(), px("0"));
    assert!(p.check_expanded_properties(&[px("1")]));
    assert!(!property("color", &["color"], "auto").is_shorthand());
    assert!(p.matches(&[CssValue::String("auto".to_string())]));
    assert!(!p.matches(&[CssValue::String("none".to_string())]));
}

#[test]
fn property_path_of_quoted_longhands() {
    let t = tree("[ <'margin-top'> <'margin-right'> ] | 'margin-left'");
    let mut path = vec![7];
    assert!(t.components[0].has_property_syntax("margin-right", &mut path));
    assert_eq!(path, vec![7, 0, 1]);
    let mut path = vec![];
    assert!(t.components[0].has_property_syntax("margin-left", &mut path));
    assert_eq!(path, vec![1]);
    let mut path = vec![3];
    assert!(!t.components[0].has_property_syntax("margin-bottom", &mut path));
    assert_eq!(path, vec![3]);
    assert!(t.has_property_syntax("margin-top").is_some());
    assert!(t.has_property_syntax("padding").is_none());
    // an unquoted type names no property
    let u = tree("<margin-top>");
    assert!(u.has_property_syntax("margin-top").is_none());
}

#[test]
fn a_component_has_one_multiplier() {
    let t = tree("foo{1,4}");
    assert_eq!(t.components[0].multipliers(), vec![SyntaxComponentMultiplier::Between(1, 4)]);
}

#[test]
fn definitions_are_stored_by_name() {
    let mut d = CssDefinitions::new();
    assert!(d.is_empty());
    assert_eq!(d.len(), 0);
    d.add_property("margin", property("margin", &[], "auto"));
    d.add_syntax("length-percentage", syntax_def("<length> | <percentage>"));
    // only resolved properties are found
    assert!(d.find_property("margin").is_none());
    d.resolve();
    assert_eq!(d.len(), 1);
    assert!(!d.is_empty());
    assert_eq!(d.find_property("margin").unwrap().name(), "margin");
    assert!(d.find_property("padding").is_none());
}

#[test]
fn resolve_replaces_type_definitions() {
    let mut d = CssDefinitions::new();
    d.add_syntax("length-percentage", syntax_def("<length> | <percentage>"));
    d.add_property("margin", property("margin", &[], "<length-percentage>{1,4}"));
    d.resolve();
    let margin = d.find_property("margin").unwrap();
    assert!(margin.resolved);
    let c = &margin.syntax.components[0];
    assert!(c.is_group());
    assert_eq!(c.get_multiplier(), SyntaxComponentMultiplier::Between(1, 4));
    match c {
        SyntaxComponent::Group { components, combinator, .. } => {
            assert_eq!(*combinator, GroupCombinators::Juxtaposition);
            assert_eq!(components.len(), 1);
            match &components[0] {
                SyntaxComponent::Group { components, combinator, .. } => {
                    assert_eq!(*combinator, GroupCombinators::ExactlyOne);
                    assert_eq!(components.len(), 2);
                }
                _ => panic!("expected the alternatives of the definition"),
            }
        }
        _ => panic!("expected a group"),
    }
    assert!(margin.matches(&[px("1")]));
    assert!(margin.matches(&[px("1"), px("2")]));
    assert!(margin.matches(&[px("1"), px("2"), px("3")]));
    assert!(margin.matches(&[px("1"), px("2"), px("3"), px("4")]));
    assert!(!margin.matches(&[px("1"), px("2"), px("3"), px("4"), px("5")]));
}

#[test]
fn resolve_takes_a_single_component_from_a_property() {
    let mut d = CssDefinitions::new();
    d.add_property("border-top-style", property("border-top-style", &[], "none | solid"));
    d.add_property("border-style", property("border-style", &[], "<border-top-style>{1,4}"));
    d.resolve();
    assert_eq!(d.len(), 2);
    let bs = d.find_property("border-style").unwrap();
    let c = &bs.syntax.components[0];
    // the single (group) component of the property, with the multiplier of the reference
    assert_eq!(c.get_multiplier(), SyntaxComponentMultiplier::Between(1, 4));
    match c {
        SyntaxComponent::Group { combinator, .. } => assert_eq!(*combinator, GroupCombinators::ExactlyOne),
        _ => panic!("expected a group"),
    }
    assert!(bs.matches(&[CssValue::String("solid".to_string()), CssValue::NoneValue]));
}

#[test]
fn resolve_component_keeps_builtins_and_its_own_name() {
    let mut d = CssDefinitions::new();
    let c = tree("<length>").components.remove(0);
    let r = d.resolve_component(&c, "margin");
    assert_eq!(r, c);
    // a reference to the property itself is not followed
    let mut d = CssDefinitions::new();
    d.add_property("x", property("x", &[], "foo"));
    let c = tree("<x>").components.remove(0);
    let r = d.resolve_component(&c, "x");
    assert_eq!(r, c);
    assert!(d.is_empty());
    // a reference to another property is resolved, and that property with it
    let r = d.resolve_component(&tree("<x>").components.remove(0), "y");
    assert_eq!(r, tree("foo").components.remove(0));
    assert_eq!(d.len(), 1);
}

#[test]
fn shorthands_from_a_repeated_component() {
    let d = CssDefinitions::new();
    let r = d.resolve_shorthands(&box_sides(), &tree("<length-percentage>{1,4}"), "margin").unwrap();
    assert_eq!(r.get_resolver().multiplier, Multiplier::QuadMulti);
    let s = format!("{:?}", r);
    assert!(s.contains("name: \"margin-left\", components: []"));
    let two = vec!["a".to_string(), "b".to_string()];
    let r = d.resolve_shorthands(&two, &tree("foo#{1,2}"), "x").unwrap();
    assert_eq!(r.get_resolver().multiplier, Multiplier::DuoMulti);
    let three = vec!["a".to_string(), "b".to_string(), "c".to_string()];
    let r = d.resolve_shorthands(&three, &tree("foo{1,3}"), "x").unwrap();
    assert_eq!(r.get_resolver().multiplier, Multiplier::NextProp);
}

#[test]
fn shorthands_from_named_longhands_or_group_members() {
    let d = CssDefinitions::new();
    let computed = vec!["flex-grow".to_string(), "flex-basis".to_string()];
    let r = d
        .resolve_shorthands(&computed, &tree("none | [ <'flex-grow'> <'flex-basis'> ]"), "flex")
        .unwrap();
    assert_eq!(r.get_resolver().multiplier, Multiplier::NoMultiplier);
    let s = format!("{:?}", r);
    assert!(s.contains("name: \"flex-grow\", components: [1, 0]"));
    assert!(s.contains("name: \"flex-basis\", components: [1, 1]"));
    let r = d.resolve_shorthands(&computed, &tree("[ foo bar ]"), "flex").unwrap();
    let s = format!("{:?}", r);
    assert!(s.contains("name: \"flex-grow\", components: [0]"));
    assert!(s.contains("name: \"flex-basis\", components: [1]"));
    // one longhand, or an empty syntax, gives nothing
    assert!(d.resolve_shorthands(&computed[..1], &tree("foo bar"), "flex").is_none());
    assert!(d.resolve_shorthands(&computed, &tree("foo bar baz"), "flex").is_none());
}

#[test]
fn shorthands_through_a_definition() {
    let mut d = CssDefinitions::new();
    d.add_syntax("sides", syntax_def("<length>{1,4}"));
    let r = d.resolve_shorthands(&box_sides(), &tree("<sides>"), "margin").unwrap();
    // found through the definition: no multiplier
    assert_eq!(r.get_resolver().multiplier, Multiplier::NoMultiplier);
    d.add_property("inner", property("inner", &[], "[ a b c d ]"));
    let r = d.resolve_shorthands(&box_sides(), &tree("'inner'"), "margin").unwrap();
    assert_eq!(r.get_resolver().multiplier, Multiplier::NoMultiplier);
    assert!(format!("{:?}", r).contains("name: \"margin-left\", components: [3]"));
    assert!(d.resolve_shorthands(&box_sides(), &tree("<unknown>"), "margin").is_none());
}

#[test]
fn index_shorthands_records_the_longhands() {
    let mut d = CssDefinitions::new();
    d.add_property(
        "margin",
        property("margin", &["margin-top", "margin-right", "margin-bottom", "margin-left"], "<length>{1,4}"),
    );
    d.add_property("color", property("color", &["color"], "<color>"));
    d.index_shorthands();
    d.resolve();
    let margin = d.find_property("margin").unwrap();
    assert_eq!(margin.shorthands.as_ref().unwrap().get_resolver().multiplier, Multiplier::QuadMulti);
    assert!(d.find_property("color").unwrap().shorthands.is_none());
}

#[test]
fn property_definitions_test_property_definitions() {
    let mut definitions = CssDefinitions::new();
    definitions.add_property(
        "color",
        PropertyDefinition {
            name: "color".to_string(),
            computed: vec![],
            syntax: CssSyntax::new("color()").compile().expect("Could not compile syntax"),
            inherited: false,
            initial_value: None,
            resolved: false,
            shorthands: None,
        },
    );
    definitions.resolve();

    assert_eq!(definitions.len(), 1);
    assert!(definitions.find_property("color").is_some());
    assert!(definitions.find_property("border-top-style").is_none());

    definitions.add_property(
        "border-style",
        PropertyDefinition {
            name: "border-style".to_string(),
            computed: vec![
                "border-top-style".to_string(),
                "border-right-style".to_string(),
                "border-bottom-style".to_string(),
                "border-left-style".to_string(),
            ],
            syntax: CssSyntax::new("").compile().expect("Could not compile syntax"),
            inherited: false,
            initial_value: Some(CssValue::String("thick".to_string())),
            resolved: false,
            shorthands: None,
        },
    );

    definitions.resolve();

    assert_eq!(definitions.len(), 2);
    assert!(definitions.find_property("border-style").is_some());
}

#[test]
fn resolving_a_second_time_changes_nothing() {
    let mut d = CssDefinitions::new();
    d.add_syntax("length-percentage", syntax_def("<length> | <percentage>"));
    d.add_property("margin", property("margin", &[], "<length-percentage>{1,4}"));
    d.add_property("width", property("width", &[], "<length-percentage> | auto"));
    d.resolve();
    let syntax_of = |d: &CssDefinitions, n: &str| {
        let p = d.find_property(n).unwrap();
        (format!("{:?}", p.syntax.components), p.resolved)
    };
    let once = (syntax_of(&d, "margin"), syntax_of(&d, "width"));
    let len = d.len();
    d.resolve();
    let twice = (syntax_of(&d, "margin"), syntax_of(&d, "width"));
    assert_eq!(once, twice);
    assert_eq!(d.len(), len);
}
