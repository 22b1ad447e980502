use gosub::css_definitions::{CssDefinitions, FunctionDefinition, PropertyDefinition, SyntaxDefinition};
use gosub::css_value::CssValue;
use gosub::syntax::{CssSyntax, GroupCombinators, SyntaxComponent, SyntaxComponentMultiplier};
use gosub::syntax_matcher::CssSyntaxTree;

fn tree(src: &str) -> CssSyntaxTree {
    CssSyntax::new(src).compile().unwrap()
}

fn property(name: &str, syntax: &str) -> PropertyDefinition {
    PropertyDefinition {
        name: name.to_string(),
        computed: vec![name.to_string()],
        syntax: tree(syntax),
        inherited: true,
        initial_value: Some(CssValue::String("auto".to_string())),
        mdn_url: format!("https://developer.mozilla.org/docs/Web/CSS/{name}"),
        resolved: false,
    }
}

#[test]
fn definitions_are_found_by_name() {
    let mut d = CssDefinitions::new();
    assert!(d.is_empty());
    d.add_property("width", property("width", "auto | <length>"));
    d.add_function(
        "calc",
        FunctionDefinition { name: "calc".to_string(), syntax: tree("<length>"), mdn_url: String::new() },
    );
    assert_eq!(d.len(), 1);
    let w = d.find_property("width").unwrap();
    assert_eq!(w.copy().name(), "width");
    assert_eq!(w.copy().expanded_properties(), vec!["width".to_string()]);
    assert!(w.copy().inherited());
    assert!(w.copy().has_initial_value());
    assert_eq!(w.copy().initial_value(), CssValue::String("auto".to_string()));
    assert!(w.check_expanded_properties(&[]));
    assert_eq!(w.syntax().components.len(), 1);
    assert!(d.find_property("height").is_none());
    // a second definition under a name replaces the first
    d.add_property("width", property("width", "auto"));
    assert_eq!(d.len(), 1);
    assert_eq!(d.get_properties().len(), 1);
}

#[test]
fn resolve_marks_every_property_resolved() {
    let mut d = CssDefinitions::new();
    d.add_syntax(
        "length-percentage",
        SyntaxDefinition { name: "length-percentage".to_string(), syntax: tree("<length> | <percentage>"), resolved: false },
    );
    d.add_property("margin-top", property("margin-top", "<length-percentage> | auto"));
    d.add_property("border-top-style", property("border-top-style", "none | solid"));
    d.add_property("border-style", property("border-style", "<border-top-style>{1,4}"));
    d.resolve();
    for name in ["margin-top", "border-top-style", "border-style"] {
        assert!(d.find_property(name).unwrap().resolved);
    }
    // the named syntax is resolved where it is used, and not stored
    assert!(!d.syntax[0].1.resolved);
    let margin = d.find_property("margin-top").unwrap();
    match &margin.syntax.components[0] {
        SyntaxComponent::Group { components, combinator, .. } => {
            assert_eq!(*combinator, GroupCombinators::ExactlyOne);
            match &components[0] {
                SyntaxComponent::Group { combinator, multiplier, .. } => {
                    assert_eq!(*combinator, GroupCombinators::Juxtaposition);
                    assert_eq!(*multiplier, SyntaxComponentMultiplier::Once);
                }
                _ => panic!("expected the named syntax as a group"),
            }
        }
        _ => panic!("expected a group"),
    }
    // a property that is a single component is taken as it is, without the multiplier of
    // the reference
    let style = d.find_property("border-style").unwrap();
    assert_eq!(style.syntax.components[0].get_multiplier(), SyntaxComponentMultiplier::Once);
}

#[test]
fn css_definitions_test_property_definitions() {
    let mut definitions = CssDefinitions::new();
    definitions.add_property(
        "color",
        PropertyDefinition {
            name: "color".to_string(),
            computed: vec![],
            syntax: CssSyntax::new("color()").compile().expect("Could not compile syntax"),
            inherited: false,
            initial_value: None,
            mdn_url: "".to_string(),
            resolved: false,
        },
    );

    assert_eq!(definitions.len(), 1);
    assert!(definitions.find_property("color").is_some());
    assert!(definitions.find_property("border-top-style").is_none());

    definitions.add_property(
        "border-style",
        PropertyDefinition {
            name: "border-style".to_string(),
            computed: vec![
                "border-top-style".to_string(),
                "border-right-style".to_string(),
                "border-bottom-style".to_string(),
                "border-left-style".to_string(),
            ],
            syntax: CssSyntax::new("").compile().expect("Could not compile syntax"),
            inherited: false,
            initial_value: Some(CssValue::String("thick".to_string())),
            mdn_url: "".to_string(),
            resolved: false,
        },
    );

    assert_eq!(definitions.len(), 2);
    assert!(definitions.find_property("border-style").is_some());
}
