use gosub::errors::Error;
use gosub::property_list::property_table;
use gosub::css_value::{same_number_text, CssValue, Number};
use gosub::syntax::{CssSyntax, GroupCombinators, NumberOrInfinity, RangeType, SyntaxComponent, SyntaxComponentMultiplier};
use gosub::useragent::{OpenWindows, WindowAction, WindowEvent, WindowOptions};

#[test]
fn multipliers_are_written_as_in_css() {
    assert_eq!(SyntaxComponentMultiplier::Once.to_css_string(), "");
    assert_eq!(SyntaxComponentMultiplier::ZeroOrMore.to_css_string(), "*");
    assert_eq!(SyntaxComponentMultiplier::OneOrMore.to_css_string(), "+");
    assert_eq!(SyntaxComponentMultiplier::Optional.to_css_string(), "?");
    assert_eq!(SyntaxComponentMultiplier::AtLeastOneValue.to_css_string(), "!");
    assert_eq!(SyntaxComponentMultiplier::Between(1, 4).to_css_string(), "{1, 4}");
    assert_eq!(SyntaxComponentMultiplier::CommaSeparatedRepeat(0, 12).to_css_string(), "#{0, 12}");
}

#[test]
fn empty_range_is_unbounded() {
    assert_eq!(
        RangeType::empty(),
        RangeType { min: NumberOrInfinity::Unbounded, max: NumberOrInfinity::Unbounded }
    );
}

#[test]
fn update_multiplier_changes_only_the_multiplier() {
    let mut c = SyntaxComponent::GenericKeyword {
        keyword: "ease-in".to_string(),
        multiplier: SyntaxComponentMultiplier::Once,
    };
    c.update_multiplier(SyntaxComponentMultiplier::OneOrMore);
    assert_eq!(
        c,
        SyntaxComponent::GenericKeyword {
            keyword: "ease-in".to_string(),
            multiplier: SyntaxComponentMultiplier::OneOrMore,
        }
    );
    assert_eq!(c.get_multiplier(), SyntaxComponentMultiplier::OneOrMore);
    assert!(!c.is_group());
    let g = SyntaxComponent::Group {
        components: vec![],
        combinator: GroupCombinators::ExactlyOne,
        multiplier: SyntaxComponentMultiplier::Optional,
    };
    assert!(g.is_group());
    assert_eq!(g.get_multiplier(), SyntaxComponentMultiplier::Optional);
    let _ = CssSyntax::new("ease-in");
}

#[test]
fn error_message() {
    assert_eq!(Error::CssCompile("x".to_string()).message(), "css: compilation error: x");
}

#[test]
fn window_options_with_id() {
    let o = WindowOptions::with_id("app".to_string());
    assert_eq!(o.id, "app");
    assert_eq!(o.parent_id, "");
}

#[test]
fn property_table_holds_initial_values() {
    let t = property_table();
    assert_eq!(t.len(), 112);
    let z = t.iter().find(|e| e.name == "z-index").unwrap();
    assert_eq!(z.initial, CssValue::String("auto".to_string()));
    assert!(!z.inheritable);
    let c = t.iter().find(|e| e.name == "border-spacing").unwrap();
    assert_eq!(c.initial, CssValue::Number(Number { text: "0".to_string() }));
    assert!(t.iter().find(|e| e.name == "azimuth").unwrap().inheritable);
}

#[test]
fn numbers_compare_by_value() {
    let n = |t: &str| Number { text: t.to_string() };
    let same = |a: &str, b: &str| same_number_text(&a.to_string(), &b.to_string());
    assert!(same("1", "1.0"));
    assert!(same("1", "+1"));
    assert!(same("1", "10e-1"));
    assert!(same("0.5", ".5"));
    assert!(same("-0", "0.000"));
    assert!(same("1200", "1.2E3"));
    assert!(same("007", "7."));
    assert!(!same("1", "2"));
    assert!(!same("-1", "1"));
    assert!(!same("1", "1e1"));
    assert!(same("1e", "1e"));
    assert!(!same("1e", "1"));
    assert!(CssValue::Unit(n("1"), "px".into()).same_as(&CssValue::Unit(n("1.0"), "px".into())));
    assert!(!CssValue::Unit(n("1"), "px".into()).same_as(&CssValue::Unit(n("1"), "em".into())));
    assert!(CssValue::List(vec![CssValue::Number(n("2")), CssValue::Comma])
        .same_as(&CssValue::List(vec![CssValue::Number(n("2.00")), CssValue::Comma])));
    assert!(!CssValue::Number(n("2")).same_as(&CssValue::Percentage(n("2"))));
}

#[test]
fn the_application_exits_when_no_window_is_left() {
    let mut w = OpenWindows::new();
    assert!(w.is_empty());
    assert_eq!(w.handle(WindowEvent::OpenFailed), WindowAction::Exit);
    assert_eq!(w.handle(WindowEvent::Opened(1)), WindowAction::Continue);
    assert_eq!(w.handle(WindowEvent::Opened(2)), WindowAction::Continue);
    assert_eq!(w.handle(WindowEvent::OpenFailed), WindowAction::Continue);
    assert_eq!(w.handle(WindowEvent::Closed(1)), WindowAction::Continue);
    assert_eq!(w.handle(WindowEvent::Closed(7)), WindowAction::Continue);
    assert!(!w.is_empty());
    assert_eq!(w.handle(WindowEvent::Closed(2)), WindowAction::Exit);
    assert!(w.is_empty());
}
