use gosub::css_colors::RgbColor;
use gosub::css_shorthands::{convert_shorthand_properties, get_initial_values, CssDeclaration};
use gosub::css_value::{CssValue, Number};

fn unit(v: &str, u: &str) -> CssValue {
    CssValue::Unit(Number { text: v.to_string() }, u.to_string())
}

fn string(v: &str) -> CssValue {
    CssValue::String(v.to_string())
}

fn color(v: &str) -> CssValue {
    CssValue::Color(RgbColor::from(v))
}

fn border_prop_test(values: Vec<CssValue>, width: CssValue, style: CssValue, color: CssValue) {
    println!("Testing border property with values: {:?}", values);
    let declaration = CssDeclaration { property: "border".to_string(), values, important: false };

    let expanded = convert_shorthand_properties(&declaration);
    assert_eq!(expanded.len(), 3);

    for decl in &expanded {
        match decl.property.as_str() {
            "border-width" => assert_eq!(decl.values[0], width),
            "border-style" => assert_eq!(decl.values[0], style),
            "border-color" => assert_eq!(decl.values[0], color),
            _ => panic!("Invalid property"),
        }
        assert_eq!(decl.important, false);
    }
}

fn margin_prop_test(values: Vec<CssValue>, top: CssValue, left: CssValue, bottom: CssValue, right: CssValue) {
    println!("Testing margin property with values: {:?}", values);
    let declaration = CssDeclaration { property: "margin".to_string(), values, important: false };

    let expanded = convert_shorthand_properties(&declaration);
    assert_eq!(expanded.len(), 4);

    for decl in &expanded {
        match decl.property.as_str() {
            "margin-top" => assert_eq!(decl.values[0], top),
            "margin-left" => assert_eq!(decl.values[0], left),
            "margin-bottom" => assert_eq!(decl.values[0], bottom),
            "margin-right" => assert_eq!(decl.values[0], right),
            _ => panic!("Invalid property"),
        }
        assert_eq!(decl.important, false);
    }
}

/// All orderings of three values.
fn permutations_of_three() -> Vec<[usize; 3]> {
    vec![[0, 1, 2], [0, 2, 1], [1, 0, 2], [1, 2, 0], [2, 0, 1], [2, 1, 0]]
}

#[test]
fn test_convert_shorthand_properties() {
    let list = || vec![unit("1.0", "px"), string("solid"), color("#123456")];

    // lets all permutations of the list
    for permutation in permutations_of_three() {
        let items = list();
        let mut perm_list = Vec::new();
        for i in permutation {
            perm_list.push(match &items[i] {
                CssValue::Unit(n, u) => unit(&n.text, u),
                CssValue::String(s) => string(s),
                _ => color("#123456"),
            });
        }
        border_prop_test(perm_list, unit("1.0", "px"), string("solid"), color("#123456"));
    }

    // tests with missing values
    border_prop_test(vec![string("solid")], string("initial"), string("solid"), string("initial"));

    border_prop_test(vec![unit("1.0", "px")], unit("1.0", "px"), string("none"), string("initial"));

    border_prop_test(vec![color("#123456")], string("initial"), string("none"), color("#123456"));

    border_prop_test(
        vec![unit("1.0", "px"), string("solid")],
        unit("1.0", "px"),
        string("solid"),
        string("initial"),
    );

    border_prop_test(
        vec![unit("1.0", "px"), color("#123456")],
        unit("1.0", "px"),
        string("none"),
        color("#123456"),
    );

    border_prop_test(
        vec![string("solid"), color("#123456")],
        string("initial"),
        string("solid"),
        color("#123456"),
    );
}

#[test]
fn css_shorthands_test_margin() {
    margin_prop_test(
        vec![unit("1.0", "px")],
        unit("1.0", "px"),
        unit("1.0", "px"),
        unit("1.0", "px"),
        unit("1.0", "px"),
    );

    margin_prop_test(
        vec![unit("1.0", "px"), unit("2.0", "px")],
        unit("1.0", "px"),
        unit("2.0", "px"),
        unit("1.0", "px"),
        unit("2.0", "px"),
    );

    margin_prop_test(
        vec![unit("1.0", "px"), unit("2.0", "px"), unit("3.0", "px")],
        unit("1.0", "px"),
        unit("2.0", "px"),
        unit("3.0", "px"),
        unit("2.0", "px"),
    );

    margin_prop_test(
        vec![unit("1.0", "px"), unit("2.0", "px"), unit("3.0", "px"), unit("4.0", "px")],
        unit("1.0", "px"),
        unit("2.0", "px"),
        unit("3.0", "px"),
        unit("4.0", "px"),
    );
}

#[test]
fn test_get_initial_values() {
    let initial = get_initial_values("border-style");

    assert!(initial.is_some());
    assert_eq!(initial.unwrap().values[0], CssValue::String("none".to_string()));
}

#[test]
fn border_later_values_win_and_keep_importance() {
    let declaration = CssDeclaration {
        property: "border".to_string(),
        values: vec![string("solid"), string("dashed"), unit("2", "px")],
        important: true,
    };
    let expanded = convert_shorthand_properties(&declaration);
    assert_eq!(expanded[0].property, "border-style");
    assert_eq!(expanded[0].values[0], string("dashed"));
    assert!(expanded[0].important);
    assert_eq!(expanded[2].property, "border-color");
    assert_eq!(expanded[2].values[0], string("initial"));
    assert!(!expanded[2].important);
}

#[test]
fn other_declarations_stay() {
    let declaration = CssDeclaration { property: "color".to_string(), values: vec![string("red")], important: false };
    let expanded = convert_shorthand_properties(&declaration);
    assert_eq!(expanded, vec![CssDeclaration { property: "color".to_string(), values: vec![string("red")], important: false }]);
}

#[test]
fn unknown_property_has_no_initial_value() {
    assert!(get_initial_values("no-such-property").is_none());
}
