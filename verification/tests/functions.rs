use gosub::css_value::CssValue;
use gosub::functions::{resolve_var, VariableEnvironment};

fn s(v: &str) -> CssValue {
    CssValue::String(v.to_string())
}

#[test]
fn variables_are_found_by_name() {
    let mut env = VariableEnvironment::default();
    assert!(env.get("main-color").is_none());
    env.values.push(("main-color".to_string(), s("red")));
    env.values.push(("main-color".to_string(), s("blue")));
    assert_eq!(env.get("main-color"), Some(s("red")));
    assert!(env.get("other").is_none());
}

#[test]
fn var_falls_back_to_its_second_value() {
    assert!(resolve_var(&[]).is_empty());
    assert!(resolve_var(&[s("--main-color")]).is_empty());
    assert_eq!(resolve_var(&[s("--main-color"), s("green")]), vec![s("green")]);
    assert_eq!(resolve_var(&[s("--a"), s("green"), s("blue")]), vec![s("green")]);
}
