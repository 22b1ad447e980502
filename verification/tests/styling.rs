use gosub::cascade::{CssOrigin, CssProperties, CssProperty, DeclarationProperty, Specificity};
use gosub::property_definitions::{CssDefinitions, PropertyDefinition};
use gosub::syntax::CssSyntax;
use gosub::css_value::CssValue;
use gosub::render_tree::{node_properties, CssDeclaration, StyleRule};
use gosub::styling::{
    match_selector, match_selector_part, CssSelector, CssSelectorPart, CssSelectorType, Document, ElementData,
    MatcherType, Node,
};

fn declaration(value: &str, origin: CssOrigin, important: bool) -> DeclarationProperty {
    DeclarationProperty {
        value: CssValue::String(value.into()),
        origin,
        important,
        location: "".into(),
        specificity: Specificity::new(1, 0, 0),
    }
}

#[test]
fn compare_declared() {
    let a = declaration("red", CssOrigin::Author, false);
    let b = declaration("blue", CssOrigin::UserAgent, false);
    let c = declaration("green", CssOrigin::User, false);
    let d = declaration("yellow", CssOrigin::Author, true);
    let e = declaration("orange", CssOrigin::UserAgent, true);
    let f = declaration("purple", CssOrigin::User, true);

    assert_eq!(3, a.priority());
    assert_eq!(1, b.priority());
    assert_eq!(2, c.priority());
    assert_eq!(5, d.priority());
    assert_eq!(7, e.priority());
    assert_eq!(6, f.priority());

    assert!(a > b);
    assert!(b < c);
    assert!(c < d);
    assert!(d < e);
    assert!(f < e);
    assert!(a < e);
    assert!(b < d);
    assert!(a < d);
    assert!(b < d);
    assert!(c < d);
    assert_eq!(c, c);
    assert_eq!(d, d);
}

#[test]
fn specified_value_is_the_last_of_the_highest_priority() {
    let mut prop = CssProperty::new("color");
    assert_eq!(prop.find_specified_value(), CssValue::NoneValue);
    prop.declared.push(declaration("red", CssOrigin::Author, false));
    prop.declared.push(declaration("blue", CssOrigin::UserAgent, true));
    prop.declared.push(declaration("green", CssOrigin::User, false));
    prop.declared.push(declaration("black", CssOrigin::UserAgent, true));
    assert_eq!(prop.find_specified_value(), CssValue::String("black".into()));
    prop.mark_clean();
    assert!(!prop.dirty);
    prop.mark_dirty();
    assert!(prop.dirty);
}

fn element(id: usize, parent: Option<usize>, name: &str, classes: &[&str], attributes: &[(&str, &str)]) -> Node {
    Node {
        id,
        parent,
        element: Some(ElementData {
            name: name.to_string(),
            classes: classes.iter().map(|c| c.to_string()).collect(),
            attributes: attributes.iter().map(|(n, v)| (n.to_string(), v.to_string())).collect(),
        }),
    }
}

/// root > html > body > div#main.box > p.note[lang=en-US]
fn document() -> Document {
    Document {
        nodes: vec![
            Node { id: 0, parent: None, element: None },
            element(1, Some(0), "html", &[], &[]),
            element(2, Some(1), "body", &["page"], &[]),
            element(3, Some(2), "div", &["box", "wide"], &[("id", "main"), ("title", "Big box here"), ("kind", "wide")]),
            element(4, Some(3), "p", &["note"], &[("lang", "en-US")]),
        ],
    }
}

fn part(type_: CssSelectorType, value: &str) -> CssSelectorPart {
    CssSelectorPart {
        type_,
        value: value.to_string(),
        name: String::new(),
        flags: String::new(),
        matcher: MatcherType::Present,
    }
}

fn attribute(name: &str, matcher: MatcherType, value: &str, flags: &str) -> CssSelectorPart {
    CssSelectorPart {
        type_: CssSelectorType::Attribute,
        value: value.to_string(),
        name: name.to_string(),
        flags: flags.to_string(),
        matcher,
    }
}

fn selector(parts: Vec<CssSelectorPart>) -> CssSelector {
    CssSelector { parts }
}

#[test]
fn simple_selectors() {
    let doc = document();
    assert!(match_selector(&doc, 4, &selector(vec![part(CssSelectorType::Type, "p")])));
    assert!(!match_selector(&doc, 4, &selector(vec![part(CssSelectorType::Type, "div")])));
    assert!(match_selector(&doc, 3, &selector(vec![part(CssSelectorType::Class, "wide")])));
    assert!(match_selector(&doc, 3, &selector(vec![part(CssSelectorType::Id, "main")])));
    assert!(!match_selector(&doc, 4, &selector(vec![part(CssSelectorType::Id, "main")])));
    assert!(match_selector(&doc, 2, &selector(vec![part(CssSelectorType::Universal, "*")])));
    // the root never matches
    assert!(!match_selector(&doc, 0, &selector(vec![part(CssSelectorType::Universal, "*")])));
    // an empty selector matches
    assert!(match_selector(&doc, 0, &selector(vec![])));
}

#[test]
fn combinators() {
    let doc = document();
    // div p (descendant): the p's parent is the div
    let s = selector(vec![part(CssSelectorType::Type, "div"), part(CssSelectorType::Combinator, " "), part(CssSelectorType::Type, "p")]);
    assert!(match_selector(&doc, 4, &s));
    // body > p (child): the p's parent is not the body
    let s = selector(vec![part(CssSelectorType::Type, "body"), part(CssSelectorType::Combinator, ">"), part(CssSelectorType::Type, "p")]);
    assert!(!match_selector(&doc, 4, &s));
    // a parts list that is consumed as it matches
    let mut parts = vec![part(CssSelectorType::Type, "p"), part(CssSelectorType::Class, "box")];
    assert!(match_selector_part(&doc, 4, &mut parts));
    assert!(parts.is_empty());
}

#[test]
fn attribute_selectors() {
    let doc = document();
    let m = |a: CssSelectorPart, node: usize| match_selector(&doc, node, &selector(vec![a]));
    assert!(m(attribute("lang", MatcherType::Present, "", ""), 4));
    assert!(!m(attribute("dir", MatcherType::Present, "", ""), 4));
    assert!(m(attribute("lang", MatcherType::Equals, "en-US", ""), 4));
    assert!(!m(attribute("lang", MatcherType::Equals, "en-us", ""), 4));
    assert!(m(attribute("lang", MatcherType::Equals, "EN-us", "i"), 4));
    assert!(m(attribute("lang", MatcherType::DashMatch, "en", ""), 4));
    assert!(m(attribute("lang", MatcherType::PrefixMatch, "en-", ""), 4));
    assert!(m(attribute("lang", MatcherType::SuffixMatch, "US", ""), 4));
    assert!(m(attribute("lang", MatcherType::SubstringMatch, "n-U", ""), 4));
    assert!(!m(attribute("lang", MatcherType::SubstringMatch, "xx", ""), 4));
    // `~=` looks for the attribute's value among the words of the selector's value
    assert!(m(attribute("kind", MatcherType::Includes, "narrow  wide\ttall", ""), 3));
    assert!(!m(attribute("title", MatcherType::Includes, "Big box here", ""), 3));
    assert!(!m(attribute("title", MatcherType::Includes, "box", ""), 3));
}

#[test]
fn css_props() {
    let mut props = CssProperties::new();
    let prop = CssProperty::new("color");
    props.properties.push(("color".into(), prop));

    let prop = props.get("color").unwrap();
    assert_eq!(prop.name, "color");

    let prop = props.get("not-exists");
    assert!(prop.is_none());
}

#[test]
fn properties_change_in_place() {
    let mut props = CssProperties::default();
    props.properties.push(("color".into(), CssProperty::new("color")));
    props.get("color").unwrap().mark_clean();
    assert!(!props.properties[0].1.dirty);
}

fn definitions() -> CssDefinitions {
    let mut defs = CssDefinitions::new();
    let def = |name: &str, computed: &[&str], inherited: bool, initial: Option<CssValue>| PropertyDefinition {
        name: name.to_string(),
        computed: computed.iter().map(|c| c.to_string()).collect(),
        syntax: CssSyntax::new("auto").compile().unwrap(),
        inherited,
        initial_value: initial,
        resolved: false,
        shorthands: None,
    };
    defs.add_property("border", def("border", &["border-width", "border-style", "border-color"], false, None));
    defs.add_property("color", def("color", &["color"], true, Some(CssValue::String("canvastext".into()))));
    defs.add_property("border-top-color", def("border-top-color", &["border-top-color"], false, None));
    defs.resolve();
    defs
}

#[test]
fn inheritance_and_shorthands_come_from_the_definitions() {
    let defs = definitions();
    assert!(!CssProperty::new("border").is_inheritable(&defs));
    assert!(CssProperty::new("color").is_inheritable(&defs));
    assert!(!CssProperty::new("window").is_inheritable(&defs));

    let border = CssProperty::new("border");
    assert!(border.is_shorthand(&defs));
    assert_eq!(border.get_props_from_shorthand(&defs), vec!["border-width", "border-style", "border-color"]);
    let window = CssProperty::new("window");
    assert!(!window.is_shorthand(&defs));
    assert!(window.get_props_from_shorthand(&defs).is_empty());
    let top = CssProperty::new("border-top-color");
    assert!(!top.is_shorthand(&defs));
    assert!(top.get_props_from_shorthand(&defs).is_empty());

    assert_eq!(border.get_initial_value(&defs), Some(CssValue::NoneValue));
    assert_eq!(CssProperty::new("color").get_initial_value(&defs), Some(CssValue::String("canvastext".into())));
    assert_eq!(window.get_initial_value(&defs), None);
}

#[test]
fn an_attribute_part_does_not_end_the_selector() {
    let doc = document();
    // Each part is matched against the next node up: the p has a `lang` attribute and its
    // parent is the div.
    let s = selector(vec![part(CssSelectorType::Type, "div"), attribute("lang", MatcherType::Present, "", "")]);
    assert!(match_selector(&doc, 4, &s));
    // The p has the attribute, but its parent is no span: the later part is checked too.
    let s = selector(vec![part(CssSelectorType::Type, "span"), attribute("lang", MatcherType::Present, "", "")]);
    assert!(!match_selector(&doc, 4, &s));
    let s = selector(vec![part(CssSelectorType::Type, "div"), attribute("dir", MatcherType::Present, "", "")]);
    assert!(!match_selector(&doc, 4, &s));
}

fn margin_and_color_definitions() -> CssDefinitions {
    let sides = ["margin-top", "margin-right", "margin-bottom", "margin-left"];
    let mut defs = CssDefinitions::new();
    let def = |name: &str, computed: &[&str], syntax: &str| PropertyDefinition {
        name: name.to_string(),
        computed: computed.iter().map(|c| c.to_string()).collect(),
        syntax: CssSyntax::new(syntax).compile().unwrap(),
        inherited: false,
        initial_value: None,
        resolved: false,
        shorthands: None,
    };
    defs.add_property("margin", def("margin", &sides, "auto{1,4}"));
    for side in sides {
        defs.add_property(side, def(side, &[side], "auto"));
    }
    defs.add_property("color", def("color", &["color"], "red | blue"));
    defs.resolve();
    defs
}

#[test]
fn a_node_gets_the_accepted_declarations_of_the_rules_that_match_it() {
    let doc = document();
    let defs = margin_and_color_definitions();
    let s = |v: &str| CssValue::String(v.to_string());
    let decl = |p: &str, v: &str| CssDeclaration { property: p.to_string(), value: vec![s(v)], important: false };
    let rules = vec![
        StyleRule {
            origin: CssOrigin::UserAgent,
            location: "ua.css".to_string(),
            selectors: vec![
                (selector(vec![part(CssSelectorType::Type, "p")]), Specificity::new(0, 0, 1)),
                (selector(vec![part(CssSelectorType::Type, "div")]), Specificity::new(0, 0, 1)),
            ],
            declarations: vec![decl("color", "red"), decl("color", "green"), decl("float", "left")],
        },
        StyleRule {
            origin: CssOrigin::Author,
            location: "page.css".to_string(),
            selectors: vec![(selector(vec![part(CssSelectorType::Class, "note")]), Specificity::new(0, 1, 0))],
            declarations: vec![decl("margin", "auto"), decl("color", "blue")],
        },
    ];

    let props = node_properties(&doc, 4, &rules, &defs);
    let names: Vec<&str> = props.properties.iter().map(|(n, _)| n.as_str()).collect();
    assert_eq!(names, vec!["color", "margin-top", "margin-right", "margin-bottom", "margin-left", "margin"]);
    let color = props.find("color").unwrap();
    assert_eq!(color.declared.len(), 2);
    assert_eq!(color.declared[0].value, s("red"));
    assert_eq!(color.declared[0].origin, CssOrigin::UserAgent);
    assert_eq!(color.declared[1].value, s("blue"));
    assert_eq!(color.declared[1].location, "page.css");
    assert_eq!(color.declared[1].specificity, Specificity::new(0, 1, 0));

    let props = node_properties(&doc, 3, &rules, &defs);
    assert_eq!(props.properties.len(), 1);
    assert_eq!(props.find("color").unwrap().declared.len(), 1);

    let props = node_properties(&doc, 2, &rules, &defs);
    assert!(props.properties.is_empty());
}

#[test]
fn a_parent_made_after_its_child_is_followed() {
    // the paragraph (1) was moved under a section (3) made after it
    let doc = Document {
        nodes: vec![
            Node { id: 0, parent: None, element: None },
            element(1, Some(3), "p", &["note"], &[]),
            element(2, Some(0), "body", &[], &[]),
            element(3, Some(2), "section", &["main"], &[]),
        ],
    };
    let descendant = || part(CssSelectorType::Combinator, " ");
    assert!(match_selector(&doc, 1, &selector(vec![part(CssSelectorType::Type, "section"), descendant(), part(CssSelectorType::Type, "p")])));
    assert!(match_selector(&doc, 1, &selector(vec![part(CssSelectorType::Type, "body"), descendant(), part(CssSelectorType::Class, "note")])));
    assert!(!match_selector(&doc, 1, &selector(vec![part(CssSelectorType::Type, "section"), part(CssSelectorType::Combinator, ">"), part(CssSelectorType::Type, "div")])));
    assert!(match_selector(&doc, 1, &selector(vec![part(CssSelectorType::Type, "section"), part(CssSelectorType::Combinator, ">"), part(CssSelectorType::Type, "p")])));
    // a parent that is not in the document ends the chain
    let doc = Document {
        nodes: vec![
            Node { id: 0, parent: None, element: None },
            element(1, Some(9), "p", &[], &[]),
        ],
    };
    assert!(!match_selector(&doc, 1, &selector(vec![part(CssSelectorType::Universal, "*"), descendant(), part(CssSelectorType::Type, "p")])));
    assert!(match_selector(&doc, 1, &selector(vec![part(CssSelectorType::Type, "p")])));
}
