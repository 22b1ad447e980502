use gosub::css_value::CssValue;
use gosub::property_definitions::{CssDefinitions, PropertyDefinition};
use gosub::syntax::{CssSyntax, GroupCombinators, SyntaxComponent, SyntaxComponentMultiplier};
use gosub::syntax_matcher::{
    match_component,
    match_group_all_any_order, match_group_at_least_one_any_order, match_group_exactly_one,
    match_group_juxtaposition,
    multiplier_fulfilled, Fulfillment,
};

fn s(v: &str) -> CssValue {
    CssValue::String(v.to_string())
}

/// Definitions with one property, `testprop`, of the given syntax, resolved.
fn testprop_definitions(syntax: &str) -> CssDefinitions {
    let mut definitions = CssDefinitions::new();
    definitions.add_property(
        "testprop",
        PropertyDefinition {
            name: "testprop".to_string(),
            computed: vec![],
            syntax: CssSyntax::new(syntax).compile().unwrap(),
            inherited: false,
            initial_value: None,
            resolved: false,
            shorthands: None,
        },
    );
    definitions.resolve();
    definitions
}

#[test]
fn test_match_group1() {
    // Exactly one
    let tree = CssSyntax::new("auto | none | block").compile().unwrap();
    assert!(tree.matches(vec![s("auto")]));
    assert!(tree.matches(vec![CssValue::NoneValue]));
    assert!(tree.matches(vec![s("block")]));
    assert!(!tree.matches(vec![s("inline")]));
    assert!(!tree.matches(vec![s("")]));
    assert!(!tree.matches(vec![s("foobar")]));
    assert!(!tree.matches(vec![s("foo"), CssValue::NoneValue]));
    assert!(!tree.matches(vec![CssValue::NoneValue, s("foo")]));
    assert!(!tree.matches(vec![s("auto"), CssValue::NoneValue]));
    assert!(!tree.matches(vec![s("auto"), CssValue::Comma, s("none"),]));
    assert!(!tree.matches(vec![
        s("auto"),
        CssValue::Comma,
        CssValue::NoneValue,
        CssValue::Comma,
        s("block"),
    ]));
}

#[test]
fn test_match_group2() {
    // juxtaposition
    let tree = CssSyntax::new("auto none block").compile().unwrap();
    assert!(!tree.matches(vec![s("auto")]));
    assert!(!tree.matches(vec![CssValue::NoneValue]));
    assert!(!tree.matches(vec![s("block")]));
    assert!(tree.matches(vec![s("auto"), CssValue::NoneValue, s("block"),]));
    assert!(!tree.matches(vec![s("block"), CssValue::NoneValue, s("block"),]));
    assert!(!tree.matches(vec![s("auto"), CssValue::NoneValue, s("auto"),]));
}

#[test]
fn test_match_group3() {
    // all any order
    let tree = CssSyntax::new("auto && none && block").compile().unwrap();
    assert!(!tree.matches(vec![s("auto")]));
    assert!(!tree.matches(vec![CssValue::NoneValue]));
    assert!(!tree.matches(vec![s("block")]));
    assert!(!tree.matches(vec![s("inline")]));
    assert!(!tree.matches(vec![s("")]));
    assert!(!tree.matches(vec![s("foobar")]));
    assert!(!tree.matches(vec![s("foo"), CssValue::NoneValue]));
    assert!(!tree.matches(vec![CssValue::NoneValue, s("foo")]));
    assert!(!tree.matches(vec![s("auto"), CssValue::NoneValue]));
    assert!(!tree.matches(vec![s("auto"), CssValue::Comma, s("none")]));
    assert!(!tree.matches(vec![
        s("auto"),
        CssValue::Comma,
        CssValue::NoneValue,
        CssValue::Comma,
        s("block")
    ]));
    assert!(tree.matches(vec![s("block"), s("auto"), CssValue::NoneValue]));
    assert!(tree.matches(vec![s("auto"), s("block"), CssValue::NoneValue]));
    assert!(tree.matches(vec![s("block"), CssValue::NoneValue, s("auto")]));
    assert!(tree.matches(vec![CssValue::NoneValue, s("auto"), s("block")]));
    assert!(!tree.matches(vec![s("auto"), s("block")]));
    assert!(!tree.matches(vec![CssValue::NoneValue, s("block")]));
    assert!(!tree.matches(vec![
        s("block"),
        s("block"),
        CssValue::NoneValue,
        CssValue::NoneValue
    ]));
}

#[test]
fn test_match_group4() {
    // At least one in any order
    let tree = CssSyntax::new("auto || none || block").compile().unwrap();
    assert!(tree.matches(vec![s("auto")]));
    assert!(tree.matches(vec![CssValue::NoneValue]));
    assert!(tree.matches(vec![s("block")]));
    assert!(tree.matches(vec![s("auto"), CssValue::NoneValue]));
    assert!(tree.matches(vec![s("block"), s("auto"), CssValue::NoneValue,]));

    assert!(!tree.matches(vec![s("inline")]));
    assert!(!tree.matches(vec![s("")]));
    assert!(!tree.matches(vec![s("foo"), CssValue::NoneValue]));
    assert!(!tree.matches(vec![CssValue::NoneValue, s("foo")]));
    assert!(!tree.matches(vec![CssValue::NoneValue, CssValue::NoneValue,]));
    assert!(!tree.matches(vec![s("auto"), CssValue::Comma, s("none"),]));
    assert!(!tree.matches(vec![
        s("auto"),
        CssValue::Comma,
        CssValue::NoneValue,
        CssValue::Comma,
        s("block"),
    ]));
    assert!(!tree.matches(vec![
        s("block"),
        s("block"),
        CssValue::NoneValue,
        CssValue::NoneValue,
    ]));
}

#[test]
fn test_match_group_juxtaposition() {
    let tree = CssSyntax::new("auto none block").compile().unwrap();
    if let SyntaxComponent::Group { components, .. } = &tree.components[0] {
        let res = match_group_juxtaposition(&vec![s("auto")], components);
        assert!(!res.matched);

        let res = match_group_juxtaposition(&vec![s("auto"), s("none")], components);
        assert!(!res.matched);

        let res = match_group_juxtaposition(
            &vec![s("auto"), s("none"), s("block")],
            components,
        );
        assert!(res.matched);

        let res = match_group_juxtaposition(
            &vec![s("none"), s("block"), s("auto")],
            components,
        );
        assert!(!res.matched);

        let res = match_group_juxtaposition(
            &vec![
                s("none"),
                s("block"),
                s("block"),
                s("auto"),
                s("none"),
            ],
            components,
        );
        assert!(!res.matched);

        let res = match_group_juxtaposition(
            &vec![s("none"), s("banana"), s("car"), s("block")],
            components,
        );
        assert!(!res.matched);
    }
}

#[test]
fn test_match_group_juxtaposition_with_groups() {
    // Test if groups are working icw juxtaposition
    let tree = CssSyntax::new("[top | bottom] [ up | down ] [ charm | strange] ").compile().unwrap();
    if let SyntaxComponent::Group { components, .. } = &tree.components[0] {
        let res = match_group_juxtaposition(&vec![
            s("top"),
            s("up"),
            s("strange")
        ], components);
        assert!(res.matched);

        let res = match_group_juxtaposition(&vec![
            s("bottom"),
            s("up"),
            s("strange")
        ], components);
        assert!(res.matched);

        let res = match_group_juxtaposition(&vec![
            s("bottom"),
            s("down"),
            s("charm")
        ], components);
        assert!(res.matched);
    }
}

#[test]
fn test_match_group_all_any_order() {
    let tree = CssSyntax::new("auto none block").compile().unwrap();
    if let SyntaxComponent::Group { components, .. } = &tree.components[0] {
        let res = match_group_all_any_order(&vec![s("auto")], components);
        assert!(!res.matched);

        let res = match_group_all_any_order(&vec![s("auto"), s("none")], components);
        assert!(!res.matched);

        let res = match_group_all_any_order(
            &vec![s("auto"), s("none"), s("block")],
            components,
        );
        assert!(res.matched);

        let res = match_group_all_any_order(
            &vec![s("none"), s("block"), s("auto")],
            components,
        );
        assert!(res.matched);

        let res = match_group_all_any_order(
            &vec![
                s("none"),
                s("block"),
                s("block"),
                s("auto"),
                s("none"),
            ],
            components,
        );
        assert!(!res.matched);

        let res = match_group_all_any_order(
            &vec![s("none"), s("banana"), s("car"), s("block")],
            components,
        );
        assert!(!res.matched);
    }
}

#[test]
fn test_match_group_at_least_one_any_order() {
    let tree = CssSyntax::new("auto none block").compile().unwrap();
    if let SyntaxComponent::Group { components, .. } = &tree.components[0] {
        let res = match_group_at_least_one_any_order(&vec![s("auto")], components);
        assert!(res.matched);

        let res =
            match_group_at_least_one_any_order(&vec![s("auto"), s("none")], components);
        assert!(res.matched);

        let res = match_group_at_least_one_any_order(
            &vec![s("auto"), s("none"), s("block")],
            components,
        );
        assert!(res.matched);

        let res = match_group_at_least_one_any_order(
            &vec![s("none"), s("block"), s("auto")],
            components,
        );
        assert!(res.matched);

        let res = match_group_at_least_one_any_order(
            &vec![s("none"), s("block"), s("auto")],
            components,
        );
        assert!(res.matched);

        let res = match_group_at_least_one_any_order(
            &vec![
                s("none"),
                s("block"),
                s("none"),
                s("block"),
                s("auto"),
                s("none"),
            ],
            components,
        );
        assert!(res.matched);
        assert_eq!(vec![s("none"), s("block")], res.matched_values);

        let res = match_group_at_least_one_any_order(
            &vec![s("none"), s("block"), s("banana"), s("auto")],
            components,
        );
        assert!(res.matched);
        assert_eq!(vec![s("none"), s("block")], res.matched_values);
        assert_eq!(vec![s("banana"), s("auto")], res.remainder);

        let res = match_group_at_least_one_any_order(&vec![], components);
        assert!(!res.matched);
    }
}

#[test]
fn test_multipliers_optional() {
    let tree = CssSyntax::new("foo bar baz").compile().unwrap();
    assert!(!tree.matches(vec![s("foo")]));
    assert!(!tree.matches(vec![s("foo")]));
    assert!(tree.matches(vec![s("foo"), s("bar"), s("baz"),]));
    assert!(!tree.matches(vec![s("foo"), s("baz"),]));

    let tree = CssSyntax::new("foo bar?").compile().unwrap();
    println!("{:?}", tree);
    assert!(tree.matches(vec![s("foo")]));
    assert!(tree.matches(vec![s("foo"), s("bar"),]));
    assert!(!tree.matches(vec![s("foo"), s("bar"), s("bar"),]));
    assert!(!tree.matches(vec![s("bar"), s("foo"),]));

    let tree = CssSyntax::new("foo bar? baz").compile().unwrap();
    assert!(!tree.matches(vec![s("foo")]));
    assert!(tree.matches(vec![s("foo"), s("baz"),]));
    assert!(tree.matches(vec![s("foo"), s("bar"), s("baz"),]));

    assert!(!tree.matches(vec![
        s("foo"),
        s("bar"),
        s("bar"),
        s("baz"),
    ]));

    assert!(!tree.matches(vec![
        s("foo"),
        s("bar"),
        s("baz"),
        s("baz"),
    ]));
}

#[test]
fn test_multipliers_zero_or_more() {
    let tree = CssSyntax::new("foo bar* baz").compile().unwrap();
    assert!(!tree.matches(vec![s("foo")]));
    assert!(!tree.matches(vec![s("foo")]));
    assert!(tree.matches(vec![s("foo"), s("bar"), s("baz"),]));
    assert!(tree.matches(vec![s("foo"), s("baz"),]));
    assert!(tree.matches(vec![
        s("foo"),
        s("bar"),
        s("bar"),
        s("bar"),
        s("bar"),
        s("baz"),
    ]));
    assert!(!tree.matches(vec![
        s("foo"),
        s("bar"),
        s("bar"),
        s("bar"),
        s("baz"),
        s("bar"),
    ]));

    let tree = CssSyntax::new("foo bar*").compile().unwrap();
    assert!(tree.matches(vec![s("foo")]));
    assert!(tree.matches(vec![s("foo")]));
    assert!(tree.matches(vec![s("foo"), s("bar"),]));
    assert!(tree.matches(vec![s("foo"), s("bar"), s("bar"),]));
    assert!(!tree.matches(vec![s("bar"), s("foo"),]));
}

#[test]
fn test_multipliers_one_or_more() {
    let tree = CssSyntax::new("foo bar+ baz").compile().unwrap();
    assert!(!tree.matches(vec![s("foo")]));
    assert!(!tree.matches(vec![s("foo")]));
    assert!(tree.matches(vec![s("foo"), s("bar"), s("baz"),]));
    assert!(!tree.matches(vec![s("foo"), s("baz"),]));
    assert!(tree.matches(vec![
        s("foo"),
        s("bar"),
        s("bar"),
        s("bar"),
        s("bar"),
        s("baz"),
    ]));
    assert!(!tree.matches(vec![
        s("foo"),
        s("bar"),
        s("bar"),
        s("bar"),
        s("baz"),
        s("bar"),
    ]));

    let tree = CssSyntax::new("foo bar+").compile().unwrap();
    assert!(!tree.matches(vec![s("foo")]));
    assert!(!tree.matches(vec![s("bar")]));
    assert!(tree.matches(vec![s("foo"), s("bar"),]));
    assert!(tree.matches(vec![s("foo"), s("bar"), s("bar"),]));
    assert!(!tree.matches(vec![s("bar"), s("foo"),]));


    let tree = CssSyntax::new("foo+ bar+").compile().unwrap();
    assert!(!tree.matches(vec![s("foo")]));
    assert!(!tree.matches(vec![s("bar")]));
    assert!(tree.matches(vec![s("foo"), s("bar"),]));
    assert!(tree.matches(vec![s("foo"), s("bar"), s("bar"),]));
    assert!(tree.matches(vec![s("foo"), s("foo"), s("bar"), s("bar"),]));

    assert!(!tree.matches(vec![s("bar"), s("foo"),]));
}

#[test]
fn test_multipliers_between() {
    let tree = CssSyntax::new("foo bar{1,3} baz").compile().unwrap();
    assert!(!tree.matches(vec![s("foo")]));
    assert!(!tree.matches(vec![s("foo")]));
    assert!(tree.matches(vec![s("foo"), s("bar"), s("baz"),]));
    assert!(!tree.matches(vec![s("foo"), s("baz"),]));
    assert!(tree.matches(vec![
        s("foo"),
        s("bar"),
        s("bar"),
        s("baz"),
    ]));
    assert!(tree.matches(vec![
        s("foo"),
        s("bar"),
        s("bar"),
        s("bar"),
        s("baz"),
    ]));
    assert!(!tree.matches(vec![
        s("foo"),
        s("bar"),
        s("bar"),
        s("bar"),
        s("bar"),
        s("baz"),
    ]));
    assert!(!tree.matches(vec![
        s("foo"),
        s("bar"),
        s("bar"),
        s("baz"),
        s("bar"),
        s("bar"),
    ]));

    let tree = CssSyntax::new("foo bar{0,3}").compile().unwrap();
    assert!(tree.matches(vec![s("foo")]));
    assert!(tree.matches(vec![s("foo")]));
    assert!(tree.matches(vec![s("foo"), s("bar"),]));
    assert!(tree.matches(vec![s("foo"), s("bar"), s("bar"),]));
    assert!(!tree.matches(vec![
        s("foo"),
        s("bar"),
        s("bar"),
        s("bar"),
        s("bar"),
    ]));
    assert!(!tree.matches(vec![s("bar"), s("foo"),]));
}

#[test]
fn test_fulfillment() {
    assert_eq!(
        multiplier_fulfilled(
            &SyntaxComponent::Group {
                components: vec![],
                combinator: GroupCombinators::Juxtaposition,
                multiplier: SyntaxComponentMultiplier::Once,
            },
            0
        ),
        Fulfillment::NotYetFulfilled
    );

    assert_eq!(
        multiplier_fulfilled(
            &SyntaxComponent::Group {
                components: vec![],
                combinator: GroupCombinators::Juxtaposition,
                multiplier: SyntaxComponentMultiplier::Once,
            },
            1
        ),
        Fulfillment::Fulfilled
    );

    assert_eq!(
        multiplier_fulfilled(
            &SyntaxComponent::Group {
                components: vec![],
                combinator: GroupCombinators::Juxtaposition,
                multiplier: SyntaxComponentMultiplier::Once,
            },
            2
        ),
        Fulfillment::NotFulfilled
    );

    assert_eq!(
        multiplier_fulfilled(
            &SyntaxComponent::Group {
                components: vec![],
                combinator: GroupCombinators::Juxtaposition,
                multiplier: SyntaxComponentMultiplier::ZeroOrMore,
            },
            0
        ),
        Fulfillment::FulfilledButMoreAllowed
    );

    assert_eq!(
        multiplier_fulfilled(
            &SyntaxComponent::Group {
                components: vec![],
                combinator: GroupCombinators::Juxtaposition,
                multiplier: SyntaxComponentMultiplier::ZeroOrMore,
            },
            1
        ),
        Fulfillment::FulfilledButMoreAllowed
    );

    assert_eq!(
        multiplier_fulfilled(
            &SyntaxComponent::Group {
                components: vec![],
                combinator: GroupCombinators::Juxtaposition,
                multiplier: SyntaxComponentMultiplier::ZeroOrMore,
            },
            2
        ),
        Fulfillment::FulfilledButMoreAllowed
    );

    assert_eq!(
        multiplier_fulfilled(
            &SyntaxComponent::Group {
                components: vec![],
                combinator: GroupCombinators::Juxtaposition,
                multiplier: SyntaxComponentMultiplier::OneOrMore,
            },
            0
        ),
        Fulfillment::NotYetFulfilled
    );

    assert_eq!(
        multiplier_fulfilled(
            &SyntaxComponent::Group {
                components: vec![],
                combinator: GroupCombinators::Juxtaposition,
                multiplier: SyntaxComponentMultiplier::OneOrMore,
            },
            1
        ),
        Fulfillment::FulfilledButMoreAllowed
    );

    assert_eq!(
        multiplier_fulfilled(
            &SyntaxComponent::Group {
                components: vec![],
                combinator: GroupCombinators::Juxtaposition,
                multiplier: SyntaxComponentMultiplier::OneOrMore,
            },
            2
        ),
        Fulfillment::FulfilledButMoreAllowed
    );

    assert_eq!(
        multiplier_fulfilled(
            &SyntaxComponent::Group {
                components: vec![],
                combinator: GroupCombinators::Juxtaposition,
                multiplier: SyntaxComponentMultiplier::Optional,
            },
            0
        ),
        Fulfillment::FulfilledButMoreAllowed
    );
}

#[test]
fn test_match_with_subgroups() {
    let tree = CssSyntax::new("[a b ] | [a c]").compile().unwrap();
    assert!(tree.matches(vec![s("a"), s("b"),]));
    assert!(tree.matches(vec![s("a"), s("c"),]));
    assert!(!tree.matches(vec![s("b"), s("b"),]));
}

#[test]
fn test_matcher_3() {
    let definitions = testprop_definitions("foo | [ foo [ foo | bar ] ]");
    let prop = definitions.find_property("testprop").unwrap();

    assert!(prop.matches(&[s("foo")]));
    assert!(prop.matches(&[s("foo"), s("foo")]));
    assert!(prop.matches(&[s("foo"), s("bar")]));

    assert!(!prop.matches(&[s("bar")]));
    assert!(!prop.matches(&[s("bar"), s("foo")]));
}

#[test]
fn a_repeated_component_gives_every_matched_value() {
    let component = SyntaxComponent::GenericKeyword {
        keyword: "bar".to_string(),
        multiplier: SyntaxComponentMultiplier::ZeroOrMore,
    };
    let input = vec![s("bar"), s("bar")];
    let result = match_component(&input, &component);
    assert!(result.matched);
    assert!(result.remainder.is_empty());
    assert_eq!(result.matched_values, input);

    let tree = CssSyntax::new("foo bar{1,3}").compile().unwrap();
    let input = vec![s("foo"), s("bar"), s("bar"), s("bar")];
    let result = match_component(&input, &tree.components[0]);
    assert!(result.matched);
    assert_eq!(result.matched_values, input);
}

#[test]
fn a_comma_separated_repeat_is_fulfilled_from_its_minimum() {
    let tree = CssSyntax::new("[foo | bar | baz]#").compile().unwrap();
    assert!(tree.matches(vec![s("foo")]));
    assert!(tree.matches(vec![s("baz")]));
    assert!(!tree.matches(vec![s("foo"), CssValue::Comma]));
    assert!(!tree.matches(vec![s("foo"), CssValue::Comma, CssValue::Comma, s("bar")]));
    assert_eq!(
        multiplier_fulfilled(
            &SyntaxComponent::Group {
                components: vec![],
                combinator: GroupCombinators::Juxtaposition,
                multiplier: SyntaxComponentMultiplier::CommaSeparatedRepeat(1, 1),
            },
            1
        ),
        Fulfillment::FulfilledButMoreAllowed
    );
}

fn keyword(k: &str) -> SyntaxComponent {
    SyntaxComponent::GenericKeyword { keyword: k.to_string(), multiplier: SyntaxComponentMultiplier::Once }
}

#[test]
fn exactly_one_takes_the_alternative_that_consumes_the_most() {
    let pair = || SyntaxComponent::Group {
        components: vec![keyword("foo"), keyword("bar")],
        combinator: GroupCombinators::Juxtaposition,
        multiplier: SyntaxComponentMultiplier::Once,
    };
    let input = vec![s("foo"), s("bar")];

    let result = match_group_exactly_one(&input, &vec![keyword("foo"), pair()]);
    assert!(result.matched);
    assert!(result.remainder.is_empty());
    assert_eq!(result.matched_values, input);

    let result = match_group_exactly_one(&input, &vec![pair(), keyword("foo")]);
    assert!(result.matched);
    assert!(result.remainder.is_empty());

    let result = match_group_exactly_one(&input, &vec![keyword("baz"), keyword("bar")]);
    assert!(!result.matched);
    assert_eq!(result.remainder, input);
    assert!(result.matched_values.is_empty());
}
