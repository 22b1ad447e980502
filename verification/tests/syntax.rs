use gosub::css_value::{CssValue, Number};
use gosub::syntax::{
    CssSyntax, GroupCombinators, NumberOrInfinity, RangeType, SyntaxComponent, SyntaxComponentMultiplier,
};
use gosub::syntax_matcher::CssSyntaxTree;
use gosub::syntax_parser::parse_unit;
#[test]
fn test_compile_empty() {
    assert!(CssSyntax::new("").compile().is_ok());
}

#[test]
fn test_generic() {
    let parts = CssSyntax::new("ease-in").compile();
    assert!(parts.is_ok());
    assert_eq!(
        parts.unwrap(),
        CssSyntaxTree::new(vec![SyntaxComponent::GenericKeyword {
            keyword: "ease-in".to_string(),
            multiplier: SyntaxComponentMultiplier::Once,
        }])
    );

    let parts = CssSyntax::new("color").compile();
    assert!(parts.is_ok());
    assert_eq!(
        parts.unwrap(),
        CssSyntaxTree::new(vec![SyntaxComponent::GenericKeyword {
            keyword: "color".into(),
            multiplier: SyntaxComponentMultiplier::Once,
        }])
    );
}

#[test]
fn test_unit() {
    let parts = CssSyntax::new("unit()").compile();
    assert!(parts.is_ok());
    assert_eq!(
        parts.unwrap(),
        CssSyntaxTree::new(vec![SyntaxComponent::Unit {
            from: None,
            to: None,
            unit: vec![],
            multiplier: SyntaxComponentMultiplier::Once,
        }])
    );

    let parts = CssSyntax::new("unit(khz)").compile();
    assert!(parts.is_ok());
    assert_eq!(
        parts.unwrap(),
        CssSyntaxTree::new(vec![SyntaxComponent::Unit {
            from: None,
            to: None,
            unit: vec!["khz".into()],
            multiplier: SyntaxComponentMultiplier::Once,
        }])
    );

    let parts = CssSyntax::new("unit(ms|s)").compile();
    assert!(parts.is_ok());
    assert_eq!(
        parts.unwrap(),
        CssSyntaxTree::new(vec![SyntaxComponent::Unit {
            from: None,
            to: None,
            unit: vec!["ms".into(), "s".into()],
            multiplier: SyntaxComponentMultiplier::Once,
        }])
    );

    let parts = CssSyntax::new("unit(10..10000 khz)").compile();
    assert!(parts.is_ok());
    assert_eq!(
        parts.unwrap(),
        CssSyntaxTree::new(vec![SyntaxComponent::Unit {
            from: Some(10),
            to: Some(10000),
            unit: vec!["khz".into()],
            multiplier: SyntaxComponentMultiplier::Once,
        }])
    );

    let parts = CssSyntax::new("unit(0.. ms|s)").compile();
    assert!(parts.is_ok());
    assert_eq!(
        parts.unwrap(),
        CssSyntaxTree::new(vec![SyntaxComponent::Unit {
            from: Some(0),
            to: None,
            unit: vec!["ms".into(), "s".into()],
            multiplier: SyntaxComponentMultiplier::Once,
        }])
    );

    let parts = CssSyntax::new("unit(..10000 khz)").compile();
    assert!(parts.is_ok());
    assert_eq!(
        parts.unwrap(),
        CssSyntaxTree::new(vec![SyntaxComponent::Unit {
            from: None,
            to: Some(10000),
            unit: vec!["khz".into()],
            multiplier: SyntaxComponentMultiplier::Once,
        }])
    );

    let parts = CssSyntax::new("unit(10..10000)").compile();
    assert!(parts.is_ok());
    assert_eq!(
        parts.unwrap(),
        CssSyntaxTree::new(vec![SyntaxComponent::Unit {
            from: Some(10),
            to: Some(10000),
            unit: vec![],
            multiplier: SyntaxComponentMultiplier::Once,
        }])
    );
}

#[test]
fn test_multipliers() {
    let parts = CssSyntax::new("color").compile();
    assert!(parts.is_ok());
    assert_eq!(
        parts.unwrap(),
        CssSyntaxTree::new(vec![SyntaxComponent::GenericKeyword {
            keyword: "color".to_string(),
            multiplier: SyntaxComponentMultiplier::Once,
        }])
    );

    let parts = CssSyntax::new("color*").compile();
    assert!(parts.is_ok());
    assert_eq!(
        parts.unwrap(),
        CssSyntaxTree::new(vec![SyntaxComponent::GenericKeyword {
            keyword: "color".to_string(),
            multiplier: SyntaxComponentMultiplier::ZeroOrMore,
        }])
    );

    let parts = CssSyntax::new("color+").compile();
    assert!(parts.is_ok());
    assert_eq!(
        parts.unwrap(),
        CssSyntaxTree::new(vec![SyntaxComponent::GenericKeyword {
            keyword: "color".to_string(),
            multiplier: SyntaxComponentMultiplier::OneOrMore,
        }])
    );

    let parts = CssSyntax::new("color?").compile();
    assert!(parts.is_ok());
    assert_eq!(
        parts.unwrap(),
        CssSyntaxTree::new(vec![SyntaxComponent::GenericKeyword {
            keyword: "color".to_string(),
            multiplier: SyntaxComponentMultiplier::Optional,
        }])
    );

    let parts = CssSyntax::new("color{3,5}").compile();
    assert!(parts.is_ok());
    assert_eq!(
        parts.unwrap(),
        CssSyntaxTree::new(vec![SyntaxComponent::GenericKeyword {
            keyword: "color".to_string(),
            multiplier: SyntaxComponentMultiplier::Between(3, 5),
        }])
    );

    let parts = CssSyntax::new("color#").compile();
    assert!(parts.is_ok());
    assert_eq!(
        parts.unwrap(),
        CssSyntaxTree::new(vec![SyntaxComponent::GenericKeyword {
            keyword: "color".to_string(),
            multiplier: SyntaxComponentMultiplier::CommaSeparatedRepeat(1, 1),
        }])
    );

    let parts = CssSyntax::new("color#{3,6}").compile();
    assert!(parts.is_ok());
    assert_eq!(
        parts.unwrap(),
        CssSyntaxTree::new(vec![SyntaxComponent::GenericKeyword {
            keyword: "color".to_string(),
            multiplier: SyntaxComponentMultiplier::CommaSeparatedRepeat(3, 6),
        }])
    );

    let parts = CssSyntax::new("color!").compile();
    assert!(parts.is_ok());
    assert_eq!(
        parts.unwrap(),
        CssSyntaxTree::new(vec![SyntaxComponent::GenericKeyword {
            keyword: "color".to_string(),
            multiplier: SyntaxComponentMultiplier::AtLeastOneValue,
        }])
    );
}

#[test]
fn test_function() {
    let parts = CssSyntax::new("length(){2,4}").compile();
    assert!(parts.is_ok());
    assert_eq!(
        parts.unwrap(),
        CssSyntaxTree::new(vec![SyntaxComponent::Function {
            name: "length".into(),
            arguments: vec![],
            multiplier: SyntaxComponentMultiplier::Between(2, 4),
        }])
    );

    let parts = CssSyntax::new("color()").compile();
    assert!(parts.is_ok());
    assert_eq!(
        parts.unwrap(),
        CssSyntaxTree::new(vec![SyntaxComponent::Function {
            name: "color".into(),
            arguments: vec![],
            multiplier: SyntaxComponentMultiplier::Once,
        }])
    );

    let parts = CssSyntax::new("color(top?){2,4}").compile();
    assert!(parts.is_ok());
    assert_eq!(
        parts.unwrap(),
        CssSyntaxTree::new(vec![SyntaxComponent::Function {
            name: "color".into(),
            arguments: vec![SyntaxComponent::GenericKeyword {
                keyword: "top".into(),
                multiplier: SyntaxComponentMultiplier::Optional,
            }],
            multiplier: SyntaxComponentMultiplier::Between(2, 4),
        }])
    );
}

#[test]
fn test_literal() {
    let parts = CssSyntax::new("/").compile();
    assert!(parts.is_ok());
    assert_eq!(
        parts.unwrap(),
        CssSyntaxTree::new(vec![SyntaxComponent::Literal {
            literal: "/".into(),
            multiplier: SyntaxComponentMultiplier::Once,
        }])
    );

    let parts = CssSyntax::new(",").compile();
    assert!(parts.is_ok());
    assert_eq!(
        parts.unwrap(),
        CssSyntaxTree::new(vec![SyntaxComponent::Literal {
            literal: ",".into(),
            multiplier: SyntaxComponentMultiplier::Once,
        }])
    );
}

#[test]
fn test_special_keywords() {
    let parts = CssSyntax::new("unset").compile();
    assert!(parts.is_ok());
    assert_eq!(
        parts.unwrap(),
        CssSyntaxTree::new(vec![SyntaxComponent::Unset {
            multiplier: SyntaxComponentMultiplier::Once,
        }])
    );

    let parts = CssSyntax::new("initial").compile();
    assert!(parts.is_ok());
    assert_eq!(
        parts.unwrap(),
        CssSyntaxTree::new(vec![SyntaxComponent::Initial {
            multiplier: SyntaxComponentMultiplier::Once,
        }])
    );

    let parts = CssSyntax::new("unset").compile();
    assert!(parts.is_ok());
    assert_eq!(
        parts.unwrap(),
        CssSyntaxTree::new(vec![SyntaxComponent::Unset {
            multiplier: SyntaxComponentMultiplier::Once,
        }])
    );
}

#[test]
fn test_compile_unit() {
    let parts = CssSyntax::new("10px").compile();
    assert!(parts.is_ok());
    assert_eq!(
        parts.unwrap().components,
        vec![SyntaxComponent::Value {
            value: CssValue::Unit(Number { text: "10".to_string() }, "px".to_string()),
            multiplier: SyntaxComponentMultiplier::Once,
        }]
    );

    let parts = CssSyntax::new("10.43px").compile();
    assert!(parts.is_ok());
    assert_eq!(
        parts.unwrap().components,
        vec![SyntaxComponent::Value {
            value: CssValue::Unit(Number { text: "10.43".to_string() }, "px".to_string()),
            multiplier: SyntaxComponentMultiplier::Once,
        }]
    );

    let parts = CssSyntax::new("-10.43px").compile();
    assert!(parts.is_ok());
    assert_eq!(
        parts.unwrap().components,
        vec![SyntaxComponent::Value {
            value: CssValue::Unit(Number { text: "-10.43".to_string() }, "px".to_string()),
            multiplier: SyntaxComponentMultiplier::Once,
        }]
    );

    let parts = CssSyntax::new("0").compile();
    assert!(parts.is_ok());
    assert_eq!(
        parts.unwrap().components,
        vec![SyntaxComponent::Value {
            value: CssValue::Zero,
            multiplier: SyntaxComponentMultiplier::Once,
        }]
    );
}

#[test]
fn test_compile_typedef() {
    let parts = CssSyntax::new("<foo> | <bar()> | <'quoted'>").compile();
    assert!(parts.is_ok());
    assert_eq!(
        parts.unwrap().components,
        vec![SyntaxComponent::Group {
            combinator: GroupCombinators::ExactlyOne,
            components: vec![
                SyntaxComponent::TypeDefinition {
                    definition: "foo".to_string(),
                    quoted: false,
                    range: RangeType::empty(),
                    multiplier: SyntaxComponentMultiplier::Once,
                },
                SyntaxComponent::TypeDefinition {
                    definition: "bar()".to_string(),
                    quoted: false,
                    range: RangeType::empty(),
                    multiplier: SyntaxComponentMultiplier::Once,
                },
                SyntaxComponent::TypeDefinition {
                    definition: "quoted".to_string(),
                    quoted: true,
                    range: RangeType::empty(),
                    multiplier: SyntaxComponentMultiplier::Once,
                },
            ],
            multiplier: SyntaxComponentMultiplier::Once,
        }]
    );

    let parts = CssSyntax::new("<foo>#").compile();
    assert!(parts.is_ok());
    assert_eq!(
        parts.unwrap().components,
        vec![SyntaxComponent::TypeDefinition {
            definition: "foo".to_string(),
            quoted: false,
            range: RangeType::empty(),
            multiplier: SyntaxComponentMultiplier::CommaSeparatedRepeat(1, 1),
        }]
    );
}

#[test]
fn test_parse_unit() {
    assert!(parse_unit("10px").is_ok());
    assert!(parse_unit("0").is_ok());
    assert!(parse_unit("52").is_err());
    assert!(parse_unit("0.0").is_ok());
    assert!(parse_unit("0.1px").is_ok());
    assert!(parse_unit("0.1foobar").is_ok());
}

#[test]
fn test_precedence() {
    let c = CssSyntax::new("left | right").compile().unwrap();
    assert_eq!(
        c.components[0],
        SyntaxComponent::Group {
            combinator: GroupCombinators::ExactlyOne,
            components: vec![
                SyntaxComponent::GenericKeyword {
                    keyword: "left".to_string(),
                    multiplier: SyntaxComponentMultiplier::Once,
                },
                SyntaxComponent::GenericKeyword {
                    keyword: "right".to_string(),
                    multiplier: SyntaxComponentMultiplier::Once,
                },
            ],
            multiplier: SyntaxComponentMultiplier::Once,
        }
    );

    let c = CssSyntax::new("left | right && top").compile().unwrap();
    assert_eq!(
        c.components[0],
        SyntaxComponent::Group {
            combinator: GroupCombinators::AllAnyOrder,
            components: vec![
                SyntaxComponent::Group {
                    combinator: GroupCombinators::ExactlyOne,
                    components: vec![
                        SyntaxComponent::GenericKeyword {
                            keyword: "left".to_string(),
                            multiplier: SyntaxComponentMultiplier::Once,
                        },
                        SyntaxComponent::GenericKeyword {
                            keyword: "right".to_string(),
                            multiplier: SyntaxComponentMultiplier::Once,
                        },
                    ],
                    multiplier: SyntaxComponentMultiplier::Once,
                },
                SyntaxComponent::GenericKeyword {
                    keyword: "top".to_string(),
                    multiplier: SyntaxComponentMultiplier::Once,
                },
            ],
            multiplier: SyntaxComponentMultiplier::Once,
        },
    );

    let c = CssSyntax::new("left && right | top").compile().unwrap();
    assert_eq!(
        c.components[0],
        SyntaxComponent::Group {
            combinator: GroupCombinators::AllAnyOrder,
            components: vec![
                SyntaxComponent::GenericKeyword {
                    keyword: "left".to_string(),
                    multiplier: SyntaxComponentMultiplier::Once,
                },
                SyntaxComponent::Group {
                    combinator: GroupCombinators::ExactlyOne,
                    components: vec![
                        SyntaxComponent::GenericKeyword {
                            keyword: "right".to_string(),
                            multiplier: SyntaxComponentMultiplier::Once,
                        },
                        SyntaxComponent::GenericKeyword {
                            keyword: "top".to_string(),
                            multiplier: SyntaxComponentMultiplier::Once,
                        },
                    ],
                    multiplier: SyntaxComponentMultiplier::Once,
                },
            ],
            multiplier: SyntaxComponentMultiplier::Once,
        }
    );

    let c = CssSyntax::new("left && right || top").compile().unwrap();
    assert_eq!(
        c.components[0],
        SyntaxComponent::Group {
            combinator: GroupCombinators::AllAnyOrder,
            components: vec![
                SyntaxComponent::GenericKeyword {
                    keyword: "left".to_string(),
                    multiplier: SyntaxComponentMultiplier::Once,
                },
                SyntaxComponent::Group {
                    combinator: GroupCombinators::AtLeastOneAnyOrder,
                    components: vec![
                        SyntaxComponent::GenericKeyword {
                            keyword: "right".to_string(),
                            multiplier: SyntaxComponentMultiplier::Once,
                        },
                        SyntaxComponent::GenericKeyword {
                            keyword: "top".to_string(),
                            multiplier: SyntaxComponentMultiplier::Once,
                        },
                    ],
                    multiplier: SyntaxComponentMultiplier::Once,
                },
            ],
            multiplier: SyntaxComponentMultiplier::Once,
        }
    );

    let c = CssSyntax::new("left || right | top").compile().unwrap();
    assert_eq!(
        c.components[0],
        SyntaxComponent::Group {
            combinator: GroupCombinators::AtLeastOneAnyOrder,
            components: vec![
                SyntaxComponent::GenericKeyword {
                    keyword: "left".to_string(),
                    multiplier: SyntaxComponentMultiplier::Once,
                },
                SyntaxComponent::Group {
                    combinator: GroupCombinators::ExactlyOne,
                    components: vec![
                        SyntaxComponent::GenericKeyword {
                            keyword: "right".to_string(),
                            multiplier: SyntaxComponentMultiplier::Once,
                        },
                        SyntaxComponent::GenericKeyword {
                            keyword: "top".to_string(),
                            multiplier: SyntaxComponentMultiplier::Once,
                        },
                    ],
                    multiplier: SyntaxComponentMultiplier::Once,
                },
            ],
            multiplier: SyntaxComponentMultiplier::Once,
        }
    );

    let c = CssSyntax::new("left | right || top").compile().unwrap();
    assert_eq!(
        c.components[0],
        SyntaxComponent::Group {
            combinator: GroupCombinators::AtLeastOneAnyOrder,
            components: vec![
                SyntaxComponent::Group {
                    combinator: GroupCombinators::ExactlyOne,
                    components: vec![
                        SyntaxComponent::GenericKeyword {
                            keyword: "left".to_string(),
                            multiplier: SyntaxComponentMultiplier::Once,
                        },
                        SyntaxComponent::GenericKeyword {
                            keyword: "right".to_string(),
                            multiplier: SyntaxComponentMultiplier::Once,
                        },
                    ],
                    multiplier: SyntaxComponentMultiplier::Once,
                },
                SyntaxComponent::GenericKeyword {
                    keyword: "top".to_string(),
                    multiplier: SyntaxComponentMultiplier::Once,
                },
            ],
            multiplier: SyntaxComponentMultiplier::Once,
        }
    );

    let c = CssSyntax::new("left | right || top && bottom")
        .compile()
        .unwrap();
    assert_eq!(
        c.components[0],
        SyntaxComponent::Group {
            combinator: GroupCombinators::AllAnyOrder,
            components: vec![
                SyntaxComponent::Group {
                    combinator: GroupCombinators::AtLeastOneAnyOrder,
                    components: vec![
                        SyntaxComponent::Group {
                            combinator: GroupCombinators::ExactlyOne,
                            components: vec![
                                SyntaxComponent::GenericKeyword {
                                    keyword: "left".to_string(),
                                    multiplier: SyntaxComponentMultiplier::Once,
                                },
                                SyntaxComponent::GenericKeyword {
                                    keyword: "right".to_string(),
                                    multiplier: SyntaxComponentMultiplier::Once,
                                },
                            ],
                            multiplier: SyntaxComponentMultiplier::Once,
                        },
                        SyntaxComponent::GenericKeyword {
                            keyword: "top".to_string(),
                            multiplier: SyntaxComponentMultiplier::Once,
                        },
                    ],
                    multiplier: SyntaxComponentMultiplier::Once,
                },
                SyntaxComponent::GenericKeyword {
                    keyword: "bottom".to_string(),
                    multiplier: SyntaxComponentMultiplier::Once,
                },
            ],
            multiplier: SyntaxComponentMultiplier::Once,
        }
    );

    let c = CssSyntax::new("left || right | top && bottom")
        .compile()
        .unwrap();
    assert_eq!(
        c.components[0],
        SyntaxComponent::Group {
            combinator: GroupCombinators::AllAnyOrder,
            components: vec![
                SyntaxComponent::Group {
                    combinator: GroupCombinators::AtLeastOneAnyOrder,
                    components: vec![
                        SyntaxComponent::GenericKeyword {
                            keyword: "left".to_string(),
                            multiplier: SyntaxComponentMultiplier::Once,
                        },
                        SyntaxComponent::Group {
                            combinator: GroupCombinators::ExactlyOne,
                            components: vec![
                                SyntaxComponent::GenericKeyword {
                                    keyword: "right".to_string(),
                                    multiplier: SyntaxComponentMultiplier::Once,
                                },
                                SyntaxComponent::GenericKeyword {
                                    keyword: "top".to_string(),
                                    multiplier: SyntaxComponentMultiplier::Once,
                                },
                            ],
                            multiplier: SyntaxComponentMultiplier::Once,
                        },
                    ],
                    multiplier: SyntaxComponentMultiplier::Once,
                },
                SyntaxComponent::GenericKeyword {
                    keyword: "bottom".to_string(),
                    multiplier: SyntaxComponentMultiplier::Once,
                },
            ],
            multiplier: SyntaxComponentMultiplier::Once,
        }
    );

    let c = CssSyntax::new("left && right || top | bottom")
        .compile()
        .unwrap();
    assert_eq!(
        c.components[0],
        SyntaxComponent::Group {
            combinator: GroupCombinators::AllAnyOrder,
            components: vec![
                SyntaxComponent::GenericKeyword {
                    keyword: "left".to_string(),
                    multiplier: SyntaxComponentMultiplier::Once,
                },
                SyntaxComponent::Group {
                    combinator: GroupCombinators::AtLeastOneAnyOrder,
                    components: vec![
                        SyntaxComponent::GenericKeyword {
                            keyword: "right".to_string(),
                            multiplier: SyntaxComponentMultiplier::Once,
                        },
                        SyntaxComponent::Group {
                            combinator: GroupCombinators::ExactlyOne,
                            components: vec![
                                SyntaxComponent::GenericKeyword {
                                    keyword: "top".to_string(),
                                    multiplier: SyntaxComponentMultiplier::Once,
                                },
                                SyntaxComponent::GenericKeyword {
                                    keyword: "bottom".to_string(),
                                    multiplier: SyntaxComponentMultiplier::Once,
                                },
                            ],
                            multiplier: SyntaxComponentMultiplier::Once,
                        },
                    ],
                    multiplier: SyntaxComponentMultiplier::Once,
                },
            ],
            multiplier: SyntaxComponentMultiplier::Once,
        }
    );

    let c = CssSyntax::new("left  right || top | bottom")
        .compile()
        .unwrap();
    assert_eq!(
        c.components[0],
        SyntaxComponent::Group {
            combinator: GroupCombinators::Juxtaposition,
            components: vec![
                SyntaxComponent::GenericKeyword {
                    keyword: "left".to_string(),
                    multiplier: SyntaxComponentMultiplier::Once,
                },
                SyntaxComponent::Group {
                    combinator: GroupCombinators::AtLeastOneAnyOrder,
                    components: vec![
                        SyntaxComponent::GenericKeyword {
                            keyword: "right".to_string(),
                            multiplier: SyntaxComponentMultiplier::Once,
                        },
                        SyntaxComponent::Group {
                            combinator: GroupCombinators::ExactlyOne,
                            components: vec![
                                SyntaxComponent::GenericKeyword {
                                    keyword: "top".to_string(),
                                    multiplier: SyntaxComponentMultiplier::Once,
                                },
                                SyntaxComponent::GenericKeyword {
                                    keyword: "bottom".to_string(),
                                    multiplier: SyntaxComponentMultiplier::Once,
                                },
                            ],
                            multiplier: SyntaxComponentMultiplier::Once,
                        },
                    ],
                    multiplier: SyntaxComponentMultiplier::Once,
                },
            ],
            multiplier: SyntaxComponentMultiplier::Once,
        }
    );

    let c = CssSyntax::new("left | right || top | bottom")
        .compile()
        .unwrap();
    assert_eq!(
        c.components[0],
        SyntaxComponent::Group {
            combinator: GroupCombinators::AtLeastOneAnyOrder,
            components: vec![
                SyntaxComponent::Group {
                    combinator: GroupCombinators::ExactlyOne,
                    components: vec![
                        SyntaxComponent::GenericKeyword {
                            keyword: "left".to_string(),
                            multiplier: SyntaxComponentMultiplier::Once,
                        },
                        SyntaxComponent::GenericKeyword {
                            keyword: "right".to_string(),
                            multiplier: SyntaxComponentMultiplier::Once,
                        },
                    ],
                    multiplier: SyntaxComponentMultiplier::Once,
                },
                SyntaxComponent::Group {
                    combinator: GroupCombinators::ExactlyOne,
                    components: vec![
                        SyntaxComponent::GenericKeyword {
                            keyword: "top".to_string(),
                            multiplier: SyntaxComponentMultiplier::Once,
                        },
                        SyntaxComponent::GenericKeyword {
                            keyword: "bottom".to_string(),
                            multiplier: SyntaxComponentMultiplier::Once,
                        },
                    ],
                    multiplier: SyntaxComponentMultiplier::Once,
                },
            ],
            multiplier: SyntaxComponentMultiplier::Once,
        }
    );

    let c = CssSyntax::new("left || right | top || bottom")
        .compile()
        .unwrap();
    assert_eq!(
        c.components[0],
        SyntaxComponent::Group {
            combinator: GroupCombinators::AtLeastOneAnyOrder,
            components: vec![
                SyntaxComponent::GenericKeyword {
                    keyword: "left".to_string(),
                    multiplier: SyntaxComponentMultiplier::Once,
                },
                SyntaxComponent::Group {
                    combinator: GroupCombinators::ExactlyOne,
                    components: vec![
                        SyntaxComponent::GenericKeyword {
                            keyword: "right".to_string(),
                            multiplier: SyntaxComponentMultiplier::Once,
                        },
                        SyntaxComponent::GenericKeyword {
                            keyword: "top".to_string(),
                            multiplier: SyntaxComponentMultiplier::Once,
                        },
                    ],
                    multiplier: SyntaxComponentMultiplier::Once,
                },
                SyntaxComponent::GenericKeyword {
                    keyword: "bottom".to_string(),
                    multiplier: SyntaxComponentMultiplier::Once,
                },
            ],
            multiplier: SyntaxComponentMultiplier::Once,
        }
    );

    let c = CssSyntax::new("left right | top bottom").compile().unwrap();
    assert_eq!(
        c.components[0],
        SyntaxComponent::Group {
            combinator: GroupCombinators::Juxtaposition,
            components: vec![
                SyntaxComponent::GenericKeyword {
                    keyword: "left".into(),
                    multiplier: SyntaxComponentMultiplier::Once,
                },
                SyntaxComponent::Group {
                    combinator: GroupCombinators::ExactlyOne,
                    components: vec![
                        SyntaxComponent::GenericKeyword {
                            keyword: "right".to_string(),
                            multiplier: SyntaxComponentMultiplier::Once,
                        },
                        SyntaxComponent::GenericKeyword {
                            keyword: "top".to_string(),
                            multiplier: SyntaxComponentMultiplier::Once,
                        },
                    ],
                    multiplier: SyntaxComponentMultiplier::Once,
                },
                SyntaxComponent::GenericKeyword {
                    keyword: "bottom".into(),
                    multiplier: SyntaxComponentMultiplier::Once,
                },
            ],
            multiplier: SyntaxComponentMultiplier::Once,
        }
    );
}

#[test]
fn test_typedef_ranges() {
    let c = CssSyntax::new("<function [1, 2]>").compile().unwrap();
    assert_eq!(
        c.components[0],
        SyntaxComponent::TypeDefinition {
            definition: "function".to_string(),
            quoted: false,
            range: RangeType {
                min: NumberOrInfinity::FiniteI64(1),
                max: NumberOrInfinity::FiniteI64(2),
            },
            multiplier: SyntaxComponentMultiplier::Once,
        }
    );

    let c = CssSyntax::new("<function>").compile().unwrap();
    assert_eq!(
        c.components[0],
        SyntaxComponent::TypeDefinition {
            definition: "function".to_string(),
            quoted: false,
            range: RangeType {
                min: NumberOrInfinity::Unbounded,
                max: NumberOrInfinity::Unbounded,
            },
            multiplier: SyntaxComponentMultiplier::Once,
        }
    );

    let c = CssSyntax::new("<function [1,]>").compile().unwrap();
    assert_eq!(
        c.components[0],
        SyntaxComponent::TypeDefinition {
            definition: "function".to_string(),
            quoted: false,
            range: RangeType {
                min: NumberOrInfinity::FiniteI64(1),
                max: NumberOrInfinity::Unbounded,
            },
            multiplier: SyntaxComponentMultiplier::Once,
        }
    );

    let c = CssSyntax::new("<function [,1]>").compile().unwrap();
    assert_eq!(
        c.components[0],
        SyntaxComponent::TypeDefinition {
            definition: "function".to_string(),
            quoted: false,
            range: RangeType {
                min: NumberOrInfinity::Unbounded,
                max: NumberOrInfinity::FiniteI64(1),
            },
            multiplier: SyntaxComponentMultiplier::Once,
        }
    );

    let c = CssSyntax::new("<function [-360,360]>").compile().unwrap();
    assert_eq!(
        c.components[0],
        SyntaxComponent::TypeDefinition {
            definition: "function".to_string(),
            quoted: false,
            range: RangeType {
                min: NumberOrInfinity::FiniteI64(-360),
                max: NumberOrInfinity::FiniteI64(360),
            },
            multiplier: SyntaxComponentMultiplier::Once,
        }
    );

    let c = CssSyntax::new("<function [0,inf]>").compile().unwrap();
    assert_eq!(
        c.components[0],
        SyntaxComponent::TypeDefinition {
            definition: "function".to_string(),
            quoted: false,
            range: RangeType {
                min: NumberOrInfinity::FiniteI64(0),
                max: NumberOrInfinity::Infinity,
            },
            multiplier: SyntaxComponentMultiplier::Once,
        }
    );
    let c = CssSyntax::new("<function [-inf, 0]>").compile().unwrap();
    assert_eq!(
        c.components[0],
        SyntaxComponent::TypeDefinition {
            definition: "function".to_string(),
            quoted: false,
            range: RangeType {
                min: NumberOrInfinity::NegativeInfinity,
                max: NumberOrInfinity::FiniteI64(0),
            },
            multiplier: SyntaxComponentMultiplier::Once,
        }
    );
    let c = CssSyntax::new("<function [-inf,inf]>").compile().unwrap();
    assert_eq!(
        c.components[0],
        SyntaxComponent::TypeDefinition {
            definition: "function".to_string(),
            quoted: false,
            range: RangeType {
                min: NumberOrInfinity::NegativeInfinity,
                max: NumberOrInfinity::Infinity,
            },
            multiplier: SyntaxComponentMultiplier::Once,
        }
    );
}

#[test]
fn test_specific_precedence_configurations() {
    // let c = CssSyntax::new("rgb( [ <number> | <percentage> | none]{3} [ / [<alpha-value> | none] ]? )").compile();
    // let c = CssSyntax::new("<percentage>#{3}").compile();
    // return;

    assert!(CssSyntax::new("le, ri ,co , bt,tp").compile().is_ok());
    assert!(CssSyntax::new("left | right | center && top")
        .compile()
        .is_ok());
    assert!(CssSyntax::new("left , right color()").compile().is_ok());
    assert!(CssSyntax::new("left , right color() ").compile().is_ok());
    assert!(CssSyntax::new("le, ri ,co , bt,tp").compile().is_ok());
    assert!(CssSyntax::new("left, right color()").compile().is_ok());
    assert!(CssSyntax::new("left | right | center && top")
        .compile()
        .is_ok());
    assert!(CssSyntax::new("left | right | center && top <length>")
        .compile()
        .is_ok());
    assert!(CssSyntax::new("[ [ <length-percentage>? ]]")
        .compile()
        .is_ok());
    assert!(CssSyntax::new("[ [ center | [ top | bottom ]  ]]")
        .compile()
        .is_ok());
    assert!(CssSyntax::new("[ <length-percentage>? ]").compile().is_ok());
    assert!(CssSyntax::new("[ center <length-percentage>? ]")
        .compile()
        .is_ok());
    assert!(
        CssSyntax::new("center | [ top | bottom ] <length-percentage>")
            .compile()
            .is_ok()
    );
    assert!(
        CssSyntax::new("[ center | [ top | bottom ] <length-percentage> ]")
            .compile()
            .is_ok()
    );
    assert!(
        CssSyntax::new("[ center | [ top | bottom ] <length-percentage>? ]")
            .compile()
            .is_ok()
    );
    assert!(
        CssSyntax::new("[ [ center | [ top | bottom ] <length-percentage>? ]]")
            .compile()
            .is_ok()
    );
    assert!(CssSyntax::new("[ [ top | center | bottom | <length-percentage> ]| [ center | [ left | right ] <length-percentage>? ] && [ center | [ top | bottom ] <length-percentage>? ]]").compile().is_ok());
    assert!(CssSyntax::new("[ [ left | center | right | top | bottom | <length-percentage> ]| [ left | center | right | <length-percentage> ] [ top | center | bottom | <length-percentage> ]| [ center | [ left | right ] <length-percentage>? ] && [ center | [ top | bottom ] <length-percentage>? ]]").compile().is_ok());
}

#[test]
fn test_stuff() {
    let c = CssSyntax::new("foo [ bar | baz]?").compile().unwrap();
    println!("{:?}", c);
}
