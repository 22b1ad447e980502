use gosub::cascade::{CssOrigin, CssProperties, CssProperty, Specificity};
use gosub::css_value::CssValue;
use gosub::shorthands::{copy_resolver, FixList, Multiplier, ResolveShorthand, Shorthand, Shorthands};

fn quad(names: &[&str]) -> Shorthands {
    Shorthands::new(
        Multiplier::QuadMulti,
        names.iter().map(|n| Shorthand::new(n.to_string(), vec![])).collect(),
        "margin".to_string(),
    )
}

/// Resolves one value of a multi-value shorthand into `fix_list`.
fn hand_out(s: &Shorthands, fix_list: &mut FixList<&'static str>, value: &'static str) {
    let resolver = s.get_resolver();
    match resolver.step(0, fix_list) {
        Err(step) => step.complete(fix_list, vec![value]),
        Ok(_) => panic!("expected a completed step"),
    }
}

fn entries(f: &FixList<&'static str>) -> Vec<(String, Vec<&'static str>)> {
    f.list().to_vec()
}

#[test]
fn quad_multi_spreads_values_like_margin() {
    let s = quad(&["margin-bottom", "margin-left", "margin-right", "margin-top"]);

    let mut fix_list = FixList::new();
    hand_out(&s, &mut fix_list, "1px");
    assert_eq!(
        entries(&fix_list),
        vec![
            ("margin-bottom".to_string(), vec!["1px"]),
            ("margin-left".to_string(), vec!["1px"]),
            ("margin-right".to_string(), vec!["1px"]),
            ("margin-top".to_string(), vec!["1px"]),
        ]
    );
    assert_eq!(fix_list.multipliers().to_vec(), vec![("margin".to_string(), 1)]);

    hand_out(&s, &mut fix_list, "2px");
    assert_eq!(
        entries(&fix_list),
        vec![
            ("margin-bottom".to_string(), vec!["1px"]),
            ("margin-left".to_string(), vec!["2px"]),
            ("margin-right".to_string(), vec!["2px"]),
            ("margin-top".to_string(), vec!["1px"]),
        ]
    );
    assert_eq!(fix_list.multipliers().to_vec(), vec![("margin".to_string(), 2)]);

    hand_out(&s, &mut fix_list, "3px");
    hand_out(&s, &mut fix_list, "4px");
    assert_eq!(
        entries(&fix_list),
        vec![
            ("margin-bottom".to_string(), vec!["3px"]),
            ("margin-left".to_string(), vec!["4px"]),
            ("margin-right".to_string(), vec!["2px"]),
            ("margin-top".to_string(), vec!["1px"]),
        ]
    );
    assert_eq!(fix_list.multipliers().to_vec(), vec![("margin".to_string(), 4)]);

    // A fifth value has no longhand left.
    let resolver = s.get_resolver();
    assert!(matches!(resolver.step(0, &mut fix_list), Ok(None)));
}

#[test]
fn abandoning_a_step_restores_the_counter() {
    let s = quad(&["a", "b", "c", "d"]);
    let mut fix_list: FixList<&'static str> = FixList::new();
    let resolver = s.get_resolver();
    match resolver.step(0, &mut fix_list) {
        Err(step) => {
            assert_eq!(fix_list.multipliers().to_vec(), vec![("margin".to_string(), 1)]);
            step.abandon(&mut fix_list);
        },
        Ok(_) => panic!("expected a completed step"),
    }
    assert!(fix_list.multipliers().is_empty());
    assert!(fix_list.list().is_empty());
}

#[test]
fn get_names_per_multiplier() {
    let c = vec!["top", "right", "bottom", "left"];
    assert_eq!(Multiplier::QuadMulti.get_names(c.clone(), 0), Some(c.clone()));
    assert_eq!(Multiplier::QuadMulti.get_names(c.clone(), 1), Some(vec!["right", "bottom"]));
    assert_eq!(Multiplier::QuadMulti.get_names(c.clone(), 2), Some(vec!["top"]));
    assert_eq!(Multiplier::QuadMulti.get_names(c.clone(), 3), Some(vec!["right"]));
    assert_eq!(Multiplier::QuadMulti.get_names(c.clone(), 4), None);
    assert_eq!(Multiplier::DuoMulti.get_names(vec!["x", "y"], 0), Some(vec!["x", "y"]));
    assert_eq!(Multiplier::DuoMulti.get_names(vec!["x", "y"], 1), Some(vec!["y"]));
    assert_eq!(Multiplier::DuoMulti.get_names(vec!["x"], 1), None);
    assert_eq!(Multiplier::NextProp.get_names(vec!["x", "y", "z"], 2), Some(vec!["z"]));
    assert_eq!(Multiplier::NextProp.get_names(vec!["x"], 1), None);
    assert_eq!(Multiplier::OnlyMatched.get_names(vec!["x"], 0), None);
    assert_eq!(Multiplier::NoMultiplier.get_names(vec!["x"], 0), None);
}

#[test]
fn step_complete_walks_the_path() {
    let path = [2usize, 5];
    let r = ResolveShorthand { name: "border-color", components: &path };
    assert!(r.step_complete(1).is_none());
    let next = r.step_complete(2).unwrap().unwrap();
    assert_eq!(next.name, "border-color");
    assert_eq!(next.components, &[5]);
    assert!(matches!(next.step_complete(5), Some(None)));
    let empty = ResolveShorthand { name: "x", components: &[] };
    assert!(matches!(empty.step_complete(0), Some(None)));
}

#[test]
fn resolver_follows_paths_of_plain_shorthands() {
    let s = Shorthands::new(
        Multiplier::NoMultiplier,
        vec![
            Shorthand::new("border-width".to_string(), vec![0]),
            Shorthand::new("border-style".to_string(), vec![1, 0]),
        ],
        "border".to_string(),
    );
    let mut fix_list: FixList<&'static str> = FixList::new();
    let resolver = s.get_resolver();
    // Component 1 continues border-style's path.
    let next = match resolver.step(1, &mut fix_list) {
        Ok(Some(next)) => next,
        _ => panic!("expected the resolution to go on"),
    };
    match next.step(0, &mut fix_list) {
        Err(step) => step.complete(&mut fix_list, vec!["solid"]),
        _ => panic!("expected border-style to complete"),
    }
    assert_eq!(entries(&fix_list), vec![("border-style".to_string(), vec!["solid"])]);
    // Component 0 completes border-width.
    let resolver = s.get_resolver();
    match resolver.step(0, &mut fix_list) {
        Err(step) => step.complete(&mut fix_list, vec!["1px"]),
        _ => panic!("expected border-width to complete"),
    }
    assert_eq!(
        entries(&fix_list),
        vec![("border-style".to_string(), vec!["solid"]), ("border-width".to_string(), vec!["1px"])]
    );
    // Nothing matches component 7.
    let resolver = s.get_resolver();
    assert!(matches!(resolver.step(7, &mut fix_list), Ok(None)));
}

#[test]
fn fix_list_insert_and_append() {
    let mut a: FixList<u32> = FixList::new();
    a.insert("x".to_string(), vec![1]);
    a.insert("y".to_string(), vec![2]);
    a.insert("x".to_string(), vec![3]);
    assert_eq!(a.list().to_vec(), vec![("x".to_string(), vec![3]), ("y".to_string(), vec![2])]);
    let mut b: FixList<u32> = FixList::default();
    b.insert("z".to_string(), vec![4]);
    a.append(b);
    assert_eq!(
        a.list().to_vec(),
        vec![("x".to_string(), vec![3]), ("y".to_string(), vec![2]), ("z".to_string(), vec![4])]
    );
}

#[test]
fn resolver_of_a_shorthand() {
    let s = Shorthand::new("margin-top".to_string(), vec![0, 1]);
    let r = s.resolver();
    assert_eq!(r.name, "margin-top");
    assert_eq!(r.components, &[0, 1]);
}

#[test]
fn fixes_become_author_declarations() {
    let mut fix: FixList<CssValue> = FixList::new();
    let red = CssValue::String("red".to_string());
    let one = CssValue::Zero;
    fix.insert("color".to_string(), vec![red.copy(), one.copy()]);
    fix.insert("margin-left".to_string(), vec![]);
    fix.insert("margin-top".to_string(), vec![one.copy()]);
    let mut props = CssProperties::new();
    props.properties.push(("color".to_string(), CssProperty::new("color")));
    fix.apply(&mut props);
    assert_eq!(props.properties.len(), 2);
    let color = props.find("color").unwrap();
    assert_eq!(color.declared.len(), 1);
    assert_eq!(color.declared[0].value, red);
    assert_eq!(color.declared[0].origin, CssOrigin::Author);
    assert!(!color.declared[0].important);
    assert_eq!(color.declared[0].location, "");
    assert_eq!(color.declared[0].specificity, Specificity::new(0, 1, 0));
    let top = props.find("margin-top").unwrap();
    assert_eq!(top.name, "margin-top");
    assert!(top.dirty);
    assert_eq!(top.declared[0].value, one);
    assert!(props.find("margin-left").is_none());
}

#[test]
fn a_copied_resolver_steps_as_the_resolver_it_copies() {
    let s = quad(&["a", "b", "c", "d"]);
    assert!(copy_resolver(&None).is_none());
    let copy = copy_resolver(&Some(s.get_resolver())).unwrap();
    assert_eq!(copy.multiplier, Multiplier::QuadMulti);
    let mut fix_list: FixList<&'static str> = FixList::new();
    match copy.step(0, &mut fix_list) {
        Err(step) => step.complete(&mut fix_list, vec!["1px"]),
        Ok(_) => panic!("expected a completed step"),
    }
    assert_eq!(fix_list.list().len(), 4);
}
