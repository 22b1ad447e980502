use gosub::cascade::{CssOrigin, CssProperties, CssProperty, Specificity};
use gosub::css_value::{CssValue, Number};
use gosub::property_definitions::{CssDefinitions, PropertyDefinition};
use gosub::syntax::CssSyntax;
use gosub::render_tree::{add_property_to_map, blank_text_ids, font_families, render_text, text_is_blank, CssDeclaration, RenderNodeData, RenderTree, RenderTreeNode};
use gosub::styling::ElementData;

type Tree = RenderTree<String, u8, u8>;

fn element(id: u64, parent: u64, name: &str, children: Vec<u64>) -> RenderTreeNode<String, u8, u8> {
    let mut properties = CssProperties::new();
    properties.properties.push(("color".to_string(), CssProperty::new("color")));
    RenderTreeNode {
        id,
        properties,
        css_dirty: true,
        children,
        parent: Some(parent),
        name: name.to_string(),
        namespace: None,
        data: RenderNodeData::Element(Box::new(ElementData {
            name: name.to_string(),
            classes: vec![],
            attributes: vec![("id".to_string(), format!("n{id}"))],
        })),
        cache: 0,
        layout: 0,
    }
}

fn text(id: u64, parent: u64) -> RenderTreeNode<String, u8, u8> {
    RenderTreeNode {
        id,
        properties: CssProperties::new(),
        css_dirty: true,
        children: vec![],
        parent: Some(parent),
        name: "#text".to_string(),
        namespace: None,
        data: RenderNodeData::Text(Box::new("hello".to_string())),
        cache: 0,
        layout: 0,
    }
}

/// root(0) -> html(1) -> [body(2) -> [text(4)], div(3)]
fn tree() -> Tree {
    let mut t = Tree::with_capacity(8, 7, 9);
    t.get_node_mut(0).unwrap().children.push(1);
    t.insert_node(1, element(1, 0, "html", vec![2, 3]));
    t.insert_node(2, element(2, 1, "body", vec![4]));
    t.insert_node(3, element(3, 1, "div", vec![]));
    t.insert_node(4, text(4, 2));
    t
}

#[test]
fn a_new_tree_has_a_root() {
    let t = Tree::with_capacity(4, 7, 9);
    let root = t.get_root();
    assert_eq!(root.id, 0);
    assert_eq!(root.name, "root");
    assert!(matches!(root.data, RenderNodeData::Document));
    assert_eq!(t.child_count(0), 0);
    assert_eq!(t.get_cache(0), Some(&7));
    assert_eq!(t.get_layout(0), Some(&9));
    assert_eq!(t.next_id, 1);
}

#[test]
fn nodes_and_children() {
    let t = tree();
    assert!(t.contains(&3));
    assert!(!t.contains(&5));
    assert_eq!(t.get_children(1), Some(&vec![2, 3]));
    assert_eq!(t.children(2), Some(vec![4]));
    assert_eq!(t.child_count(1), 2);
    assert_eq!(t.child_count(9), 0);
    assert_eq!(t.parent_id(4), Some(2));
    assert_eq!(t.parent_id(0), None);
    assert!(t.get_node(2).unwrap().is_element());
    assert!(t.get_node(4).unwrap().is_text());
    assert!(!t.get_node(4).unwrap().is_anon_inline_parent());
    assert_eq!(t.get_node(3).unwrap().get_attribute("id"), Some("n3".to_string()));
    assert_eq!(t.get_node(4).unwrap().get_attribute("id"), None);
    assert_eq!(t.get_child_node_ids(1), vec![1, 2, 4, 3]);
    assert_eq!(t.get_child_node_ids(42), vec![42]);
}

#[test]
fn deleting_unlinks_from_the_parent() {
    let mut t = tree();
    let (id, node) = t.delete_node(&2).unwrap();
    assert_eq!(id, 2);
    assert_eq!(node.name, "body");
    assert_eq!(t.get_children(1), Some(&vec![3]));
    assert!(!t.contains(&2));
    // the children of the deleted node stay
    assert!(t.contains(&4));
    assert!(t.delete_node(&2).is_none());
}

#[test]
fn properties_are_marked_dirty_and_clean() {
    let mut t = tree();
    t.mark_clean(1);
    assert!(!t.get_property(1, "color").unwrap().dirty);
    assert!(t.get_property(1, "font-size").is_none());
    assert!(t.get_property(17, "color").is_none());
    t.mark_dirty(1);
    assert!(t.get_property(1, "color").unwrap().dirty);
    assert_eq!(t.get_all_properties(1).unwrap().properties.len(), 1);
    t.get_node_mut(1).unwrap().get_property("color").unwrap().mark_clean();
    assert!(!t.get_property(1, "color").unwrap().dirty);
}

#[test]
fn layout_data_and_style_state() {
    let mut t = tree();
    assert!(t.style_dirty(2));
    t.clean_style(2);
    assert!(!t.style_dirty(2));
    assert!(t.style_dirty(99));
    t.set_cache(3, 5);
    t.set_layout(3, 6);
    assert_eq!(t.get_cache(3), Some(&5));
    assert_eq!(t.get_layout(3), Some(&6));
    t.set_cache(99, 5);
    assert_eq!(t.get_cache(99), None);
}

fn definition(name: &str, computed: &[&str], syntax: &str) -> PropertyDefinition {
    PropertyDefinition {
        name: name.to_string(),
        computed: computed.iter().map(|c| c.to_string()).collect(),
        syntax: CssSyntax::new(syntax).compile().unwrap(),
        inherited: false,
        initial_value: None,
        resolved: false,
        shorthands: None,
    }
}

fn margin_definitions() -> CssDefinitions {
    let sides = ["margin-top", "margin-right", "margin-bottom", "margin-left"];
    let mut defs = CssDefinitions::new();
    defs.add_property("margin", definition("margin", &sides, "auto{1,4}"));
    for side in sides {
        defs.add_property(side, definition(side, &[side], "auto"));
    }
    defs.resolve();
    defs
}

fn px(v: &str) -> CssValue {
    CssValue::Unit(Number { text: v.to_string() }, "px".to_string())
}

#[test]
fn a_shorthand_declaration_goes_to_its_longhands_first() {
    let defs = margin_definitions();
    let mut props = CssProperties::new();
    let decl = CssDeclaration { property: "margin".to_string(), value: vec![px("1"), px("2")], important: true };
    add_property_to_map(&mut props, &defs, CssOrigin::Author, "page.css:3", Specificity::new(0, 1, 0), &decl);
    let names: Vec<&str> = props.properties.iter().map(|(n, _)| n.as_str()).collect();
    assert_eq!(names, vec!["margin-top", "margin-right", "margin-bottom", "margin-left", "margin"]);
    for (_, p) in &props.properties {
        assert_eq!(p.declared.len(), 1);
        assert_eq!(p.declared[0].value, px("1"));
        assert!(p.declared[0].important);
        assert_eq!(p.declared[0].origin, CssOrigin::Author);
        assert_eq!(p.declared[0].location, "page.css:3");
        assert_eq!(p.declared[0].specificity, Specificity::new(0, 1, 0));
        assert!(p.dirty);
    }

    let top = CssDeclaration { property: "margin-top".to_string(), value: vec![px("5")], important: false };
    add_property_to_map(&mut props, &defs, CssOrigin::User, "", Specificity::new(1, 0, 0), &top);
    assert_eq!(props.properties.len(), 5);
    let p = props.find("margin-top").unwrap();
    assert_eq!(p.declared.len(), 2);
    assert_eq!(p.declared[1].value, px("5"));
    assert_eq!(props.find("margin").unwrap().declared.len(), 1);
}

#[test]
fn an_undefined_property_gets_the_declaration_alone() {
    let defs = margin_definitions();
    let mut props = CssProperties::new();
    let decl = CssDeclaration { property: "color".to_string(), value: vec![CssValue::String("red".to_string())], important: false };
    add_property_to_map(&mut props, &defs, CssOrigin::UserAgent, "ua.css", Specificity::new(0, 0, 1), &decl);
    assert_eq!(props.properties.len(), 1);
    assert_eq!(props.properties[0].0, "color");
    assert_eq!(props.properties[0].1.declared[0].value, CssValue::String("red".to_string()));
}

/// root(0) -> [text(1), span(2), div(3) -> [text(7)], text(4)]
fn inline_tree() -> Tree {
    let mut t = Tree::with_capacity(8, 7, 9);
    t.get_node_mut(0).unwrap().children = vec![1, 2, 3, 4];
    t.insert_node(1, text(1, 0));
    t.insert_node(2, element(2, 0, "span", vec![]));
    t.insert_node(3, element(3, 0, "div", vec![7]));
    t.insert_node(4, text(4, 0));
    t.insert_node(7, text(7, 3));
    t.next_id = 10;
    t
}

#[test]
fn runs_of_inline_children_are_wrapped_in_anonymous_boxes() {
    let mut t = inline_tree();
    t.collapse_inline(0, &[2]);
    assert_eq!(t.next_id, 13);
    assert_eq!(t.children(0), Some(vec![10, 3, 12]));
    assert_eq!(t.children(10), Some(vec![1, 2]));
    assert_eq!(t.children(3), Some(vec![11]));
    assert_eq!(t.children(11), Some(vec![7]));
    assert_eq!(t.children(12), Some(vec![4]));
    assert_eq!(t.parent_id(1), Some(10));
    assert_eq!(t.parent_id(2), Some(10));
    assert_eq!(t.parent_id(7), Some(11));
    assert_eq!(t.parent_id(10), Some(0));
    assert_eq!(t.parent_id(11), Some(3));
    let wrapper = t.get_node(10).unwrap();
    assert!(wrapper.is_anon_inline_parent());
    assert_eq!(wrapper.name, "#anonymous");
    assert!(wrapper.properties.properties.is_empty());
    assert!(wrapper.css_dirty);
    // the new boxes start with the layouter's defaults
    assert_eq!(wrapper.cache, 0);
    assert_eq!(wrapper.layout, 0);
    assert_eq!(t.get_node(12).unwrap().cache, 0);
    // the other nodes keep what the layouter holds for them
    assert_eq!(t.get_node(0).unwrap().cache, 7);
    assert_eq!(t.get_node(3).unwrap().layout, 0);
}

#[test]
fn without_inline_children_nothing_is_wrapped() {
    let mut t = inline_tree();
    t.get_node_mut(0).unwrap().children = vec![3];
    t.get_node_mut(3).unwrap().children = vec![];
    t.collapse_inline(0, &[]);
    assert_eq!(t.next_id, 10);
    assert_eq!(t.children(0), Some(vec![3]));
}

#[test]
fn the_printed_tree_has_a_line_per_node_in_pre_order() {
    let t = inline_tree();
    assert_eq!(
        t.print_tree(),
        vec![
            "0: root".to_string(),
            "  1: #text".to_string(),
            "  2: span".to_string(),
            "  3: div".to_string(),
            "    7: #text".to_string(),
            "  4: #text".to_string(),
        ]
    );
}

/// root(0) -> html(1) -> [head(2) -> [title(5)], body(3) -> [text(4), div(6) -> [text(7)]]]
fn page_tree() -> Tree {
    let mut t = Tree::with_capacity(8, 7, 9);
    t.get_node_mut(0).unwrap().children = vec![1];
    t.insert_node(1, element(1, 0, "html", vec![2, 3]));
    t.insert_node(2, element(2, 1, "head", vec![5]));
    t.insert_node(3, element(3, 1, "body", vec![4, 6]));
    t.insert_node(4, text(4, 3));
    t.insert_node(5, element(5, 2, "title", vec![]));
    t.insert_node(6, element(6, 3, "div", vec![7]));
    t.insert_node(7, text(7, 6));
    t
}

#[test]
fn unrendered_nodes_are_removed_with_what_is_under_them() {
    let mut t = page_tree();
    // text 4 is white space only; div 6 has display: none
    t.remove_unrenderable_nodes(&[6], &[4]);
    let ids: Vec<u64> = t.nodes.iter().map(|(id, _)| *id).collect();
    assert_eq!(ids, vec![0, 1, 3]);
    assert_eq!(t.children(1), Some(vec![3]));
    assert_eq!(t.children(3), Some(vec![]));
    assert_eq!(t.get_node(0).unwrap().layout, 9);
}

#[test]
fn rendered_nodes_stay() {
    let mut t = page_tree();
    t.get_node_mut(2).unwrap().name = "header".to_string();
    if let RenderNodeData::Element(e) = &mut t.get_node_mut(2).unwrap().data {
        e.name = "header".to_string();
    }
    t.remove_unrenderable_nodes(&[], &[]);
    assert_eq!(t.nodes.len(), 8);
    assert_eq!(t.children(3), Some(vec![4, 6]));
}

#[test]
fn a_text_of_white_space_only_is_blank() {
    assert!(text_is_blank(""));
    assert!(text_is_blank(" \t\n\r\x0C "));
    assert!(!text_is_blank("  a "));
    assert!(!text_is_blank("\u{a0}"));
    let texts = vec![(3u64, "  ".to_string()), (5, "hello".to_string()), (8, "\n".to_string())];
    assert_eq!(blank_text_ids(&texts), vec![3, 8]);
}

#[test]
fn a_rendered_text_loses_outer_white_space_and_line_breaks() {
    assert_eq!(render_text("  Hello\nWorld \r\n "), "HelloWorld");
    assert_eq!(render_text("\u{a0}a b\u{3000}"), "a b");
    assert_eq!(render_text(" \t\n "), "");
    assert_eq!(render_text("one\r\ntwo"), "onetwo");
}

#[test]
fn font_families_are_the_pieces_between_commas() {
    assert_eq!(font_families("  Arial, sans-serif "), vec!["Arial".to_string(), " sans-serif".to_string()]);
    assert_eq!(font_families("serif"), vec!["serif".to_string()]);
    assert_eq!(font_families(""), vec!["".to_string()]);
    assert_eq!(font_families("a,,b"), vec!["a".to_string(), "".to_string(), "b".to_string()]);
}
