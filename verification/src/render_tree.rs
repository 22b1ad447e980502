//! Building the render tree: what becomes of each document node.
use vstd::prelude::*;
use anyhow::Error as AnyhowError;
use crate::cascade::{
    declaration_view, declarations_view, properties_view, property_values_view, CssOrigin, CssProperties, CssProperty,
    DeclarationProperty, DeclarationView, PropertyValuesView, Specificity,
};
use crate::css_value::{CssValue, CssValueView};
use crate::property_definitions::{lemma_index_of_key_keys, CssDefinitions, PropertyDefinition};
use crate::syntax::strings_view;
use crate::text::{chars_eq, chars_of, decimal_chars, push_all, string_of, u64_to_chars};
use crate::scan::{trim, trim_chars};
use crate::shorthands::index_of_key;
use crate::styling::{attribute_of, attribute_value, pairs_seq};
use crate::styling::ElementData;
use crate::styling::{doc_wf, match_selector, parts_view, selector_matches, CssSelector, Document};
use crate::styling::NodeView as SelectorNodeView;
use crate::property_definitions::lookup;
use crate::syntax_matcher::tree_matches;
use crate::css_value::values_view;

verus! {

/// `anyhow::Error`, carried through as it is.
#[verifier::external_type_specification]
#[verifier::external_body]
pub struct ExAnyhowError(AnyhowError);

/// What to do with a node when building the render tree.
pub enum ControlFlow<T> {
    /// The node is kept, with this data.
    Keep(T),
    /// The node is left out.
    Drop,
    /// The node could not be turned into render data.
    Error(AnyhowError),
}

/// What a node of the render tree holds.
pub enum RenderNodeData<T> {
    /// The root of the tree.
    Document,
    /// An element.
    Element(Box<ElementData>),
    /// A run of text, prepared for rendering.
    Text(Box<T>),
    /// A box made to hold a run of inline children.
    AnonymousInline,
}

/// A node of the render tree: its place in the tree, its properties, its data, and what
/// the layouter keeps for it.
pub struct RenderTreeNode<T, C, Y> {
    pub id: u64,
    pub properties: CssProperties,
    pub css_dirty: bool,
    pub children: Vec<u64>,
    pub parent: Option<u64>,
    pub name: String,
    pub namespace: Option<String>,
    pub data: RenderNodeData<T>,
    pub cache: C,
    pub layout: Y,
}

impl<T, C, Y> RenderTreeNode<T, C, Y> {
    /// Returns true if the node is an element node
    pub fn is_element(&self) -> (r: bool)
        ensures
            r == (self.data is Element),
    {
        match self.data {
            RenderNodeData::Element(_) => true,
            _ => false,
        }
    }

    /// Returns true if the node is a text node
    pub fn is_text(&self) -> (r: bool)
        ensures
            r == (self.data is Text),
    {
        match self.data {
            RenderNodeData::Text(_) => true,
            _ => false,
        }
    }

    /// Returns true if the node is an anonymous box around inline children
    pub fn is_anon_inline_parent(&self) -> (r: bool)
        ensures
            r == (self.data is AnonymousInline),
    {
        match self.data {
            RenderNodeData::AnonymousInline => true,
            _ => false,
        }
    }

    /// Returns the requested property for the node, to change in place
    pub fn get_property(&mut self, prop_name: &str) -> (r: Option<&mut CssProperty>)
        ensures
            match index_of_key(properties_view(old(self).properties.properties@), prop_name@, 0) {
                Some(i) => r matches Some(p) && *p == old(self).properties.properties@[i].1
                    && final(self).properties.properties@ == old(self).properties.properties@.update(
                    i,
                    (old(self).properties.properties@[i].0, *final(p)),
                ),
                None => r is None && final(self).properties.properties@ == old(self).properties.properties@,
            },
            final(self).id == old(self).id,
            final(self).css_dirty == old(self).css_dirty,
            final(self).children == old(self).children,
            final(self).parent == old(self).parent,
            final(self).name == old(self).name,
            final(self).namespace == old(self).namespace,
            final(self).data == old(self).data,
            final(self).cache == old(self).cache,
            final(self).layout == old(self).layout,
    {
        self.properties.get(prop_name)
    }

    /// Returns the requested attribute for the node (of an element; none for other nodes)
    pub fn get_attribute(&self, attr_name: &str) -> (r: Option<String>)
        ensures
            match self.data {
                RenderNodeData::Element(e) => match attribute_of(pairs_seq(e.attributes@), attr_name@) {
                    Some(v) => r is Some && r->0@ == v,
                    None => r is None,
                },
                _ => r is None,
            },
    {
        match &self.data {
            RenderNodeData::Element(element) => attribute_value(&element.attributes, attr_name),
            _ => None,
        }
    }
}

/// The first index at or after `i` of an entry with id `id`.
pub open spec fn index_of_id<V>(s: Seq<(u64, V)>, id: u64, i: int) -> Option<int>
    decreases s.len() - i,
{
    if i < 0 || i >= s.len() {
        None
    } else if s[i].0 == id {
        Some(i)
    } else {
        index_of_id(s, id, i + 1)
    }
}

/// Where `index_of_id` finds an entry it has that id, and none before it has; where it
/// finds none, no entry from `i` on has it.
pub proof fn lemma_index_of_id<V>(s: Seq<(u64, V)>, id: u64, i: int)
    requires
        0 <= i,
    ensures
        index_of_id(s, id, i) matches Some(j) ==> i <= j < s.len() && s[j].0 == id
            && forall|m: int| i <= m < j ==> s[m].0 != id,
        index_of_id(s, id, i) is None ==> forall|m: int| i <= m < s.len() ==> s[m].0 != id,
    decreases s.len() - i,
{
    if i < s.len() && s[i].0 != id {
        lemma_index_of_id(s, id, i + 1);
    }
}

/// `s` with `x` removed everywhere.
pub open spec fn without(s: Seq<u64>, x: u64) -> Seq<u64>
    decreases s.len(),
{
    if s.len() == 0 {
        s
    } else if s.last() == x {
        without(s.drop_last(), x)
    } else {
        without(s.drop_last(), x).push(s.last())
    }
}

/// Map of all declared values for all nodes in the document: each node under its id.
pub struct RenderTree<T, C, Y> {
    pub nodes: Vec<(u64, RenderTreeNode<T, C, Y>)>,
    pub root: u64,
    pub dirty: bool,
    /// The id the next new node gets.
    pub next_id: u64,
}

/// The position of the entry with id `id`.
fn find_id<T, C, Y>(nodes: &Vec<(u64, RenderTreeNode<T, C, Y>)>, id: u64) -> (r: Option<usize>)
    ensures
        match r {
            Some(i) => i < nodes@.len() && index_of_id(nodes@, id, 0) == Some(i as int),
            None => index_of_id(nodes@, id, 0) is None,
        },
{
    let mut i: usize = 0;
    while i < nodes.len()
        invariant
            i <= nodes.len(),
            index_of_id(nodes@, id, 0) == index_of_id(nodes@, id, i as int),
        decreases nodes.len() - i,
    {
        if nodes[i].0 == id {
            return Some(i);
        }
        i += 1;
    }
    None
}

impl<T, C, Y> RenderTree<T, C, Y> {
    /// The nodes under their ids, in order.
    pub open spec fn entries(&self) -> Seq<(u64, RenderTreeNode<T, C, Y>)> {
        self.nodes@
    }

    /// The node with id `id`, if any.
    pub open spec fn node(&self, id: u64) -> Option<RenderTreeNode<T, C, Y>> {
        match index_of_id(self.nodes@, id, 0) {
            Some(i) => Some(self.nodes@[i].1),
            None => None,
        }
    }

    /// A render tree with only its root node (id 0, named `root`), which holds `cache` and
    /// `layout`.
    pub fn with_capacity(capacity: usize, cache: C, layout: Y) -> (t: Self)
        ensures
            t.root == 0,
            !t.dirty,
            t.next_id == 1,
            t.entries().len() == 1,
            t.entries()[0].0 == 0,
            t.entries()[0].1.id == 0,
            t.entries()[0].1.properties.properties@.len() == 0,
            t.entries()[0].1.css_dirty,
            t.entries()[0].1.children@.len() == 0,
            t.entries()[0].1.parent is None,
            t.entries()[0].1.name@ == "root"@,
            t.entries()[0].1.namespace is None,
            t.entries()[0].1.data is Document,
            t.entries()[0].1.cache == cache,
            t.entries()[0].1.layout == layout,
    {
        let mut tree = RenderTree { nodes: Vec::with_capacity(capacity), root: 0, dirty: false, next_id: 1 };
        tree.insert_node(
            0,
            RenderTreeNode {
                id: 0,
                properties: CssProperties::new(),
                css_dirty: true,
                children: Vec::new(),
                parent: None,
                name: "root".to_owned(),
                namespace: None,
                data: RenderNodeData::Document,
                cache,
                layout,
            },
        );
        tree
    }

    /// Returns the root node of the render tree
    pub fn get_root(&self) -> (r: &RenderTreeNode<T, C, Y>)
        requires
            self.node(self.root) is Some,
        ensures
            Some(*r) == self.node(self.root),
    {
        match find_id(&self.nodes, self.root) {
            Some(i) => &self.nodes[i].1,
            None => {
                proof {
                    assert(false);
                }
                &self.nodes[0].1
            },
        }
    }

    /// Returns the node with the given id
    pub fn get_node(&self, id: u64) -> (r: Option<&RenderTreeNode<T, C, Y>>)
        ensures
            match r {
                Some(n) => self.node(id) == Some(*n),
                None => self.node(id) is None,
            },
    {
        match find_id(&self.nodes, id) {
            Some(i) => Some(&self.nodes[i].1),
            None => None,
        }
    }

    /// Returns a mutable reference to the node with the given id
    pub fn get_node_mut(&mut self, id: u64) -> (r: Option<&mut RenderTreeNode<T, C, Y>>)
        ensures
            match index_of_id(old(self).entries(), id, 0) {
                Some(i) => r matches Some(n) && *n == old(self).entries()[i].1
                    && final(self).entries() == old(self).entries().update(i, (old(self).entries()[i].0, *final(n))),
                None => r is None && final(self).entries() == old(self).entries(),
            },
            final(self).root == old(self).root,
            final(self).dirty == old(self).dirty,
            final(self).next_id == old(self).next_id,
    {
        match find_id(&self.nodes, id) {
            Some(i) => Some(&mut self.nodes[i].1),
            None => None,
        }
    }

    /// Returns the children of the given node
    pub fn get_children(&self, id: u64) -> (r: Option<&Vec<u64>>)
        ensures
            match self.node(id) {
                Some(n) => r == Some(&n.children),
                None => r is None,
            },
    {
        match find_id(&self.nodes, id) {
            Some(i) => Some(&self.nodes[i].1.children),
            None => None,
        }
    }

    /// Returns the number of children of the given node (none for an unknown node)
    pub fn child_count(&self, id: u64) -> (r: usize)
        ensures
            r == match self.node(id) {
                Some(n) => n.children@.len(),
                None => 0,
            },
    {
        match find_id(&self.nodes, id) {
            Some(i) => self.nodes[i].1.children.len(),
            None => 0,
        }
    }

    /// Inserts a new node into the render tree, note that you are responsible for the node id
    /// and the children of the node
    pub fn insert_node(&mut self, id: u64, node: RenderTreeNode<T, C, Y>)
        ensures
            final(self).entries() == match index_of_id(old(self).entries(), id, 0) {
                Some(i) => old(self).entries().update(i, (id, node)),
                None => old(self).entries().push((id, node)),
            },
            final(self).root == old(self).root,
            final(self).dirty == old(self).dirty,
            final(self).next_id == old(self).next_id,
    {
        match find_id(&self.nodes, id) {
            Some(i) => {
                self.nodes.set(i, (id, node));
            },
            None => {
                self.nodes.push((id, node));
            },
        }
    }
}

/// `b` is `a` with its children replaced by `kids`.
pub open spec fn with_children<T, C, Y>(a: RenderTreeNode<T, C, Y>, b: RenderTreeNode<T, C, Y>, kids: Seq<u64>) -> bool {
    &&& b.children@ == kids
    &&& b.id == a.id
    &&& b.properties == a.properties
    &&& b.css_dirty == a.css_dirty
    &&& b.parent == a.parent
    &&& b.name == a.name
    &&& b.namespace == a.namespace
    &&& b.data == a.data
    &&& b.cache == a.cache
    &&& b.layout == a.layout
}

/// `b` is `a` with every property marked dirty (or clean when `dirty` is false).
pub open spec fn with_properties_marked<T, C, Y>(a: RenderTreeNode<T, C, Y>, b: RenderTreeNode<T, C, Y>, dirty: bool) -> bool {
    &&& b.properties.properties@.len() == a.properties.properties@.len()
    &&& forall|m: int|
        0 <= m < a.properties.properties@.len() ==> #[trigger] b.properties.properties@[m] == (
        a.properties.properties@[m].0,
        CssProperty { dirty, ..a.properties.properties@[m].1 },
    )
    &&& b.id == a.id
    &&& b.css_dirty == a.css_dirty
    &&& b.children == a.children
    &&& b.parent == a.parent
    &&& b.name == a.name
    &&& b.namespace == a.namespace
    &&& b.data == a.data
    &&& b.cache == a.cache
    &&& b.layout == a.layout
}

/// `f` is what deleting node `id` leaves of the nodes `o`, and `r` what it gives back: the
/// node is taken out of the children of its parent, then removed (and given back).
pub open spec fn deleted<T, C, Y>(
    o: Seq<(u64, RenderTreeNode<T, C, Y>)>,
    f: Seq<(u64, RenderTreeNode<T, C, Y>)>,
    id: u64,
    r: Option<(u64, RenderTreeNode<T, C, Y>)>,
) -> bool {
    match index_of_id(o, id, 0) {
        None => r is None && f == o,
        Some(i) => {
            let p = match o[i].1.parent {
                Some(pid) => index_of_id(o, pid, 0),
                None => None,
            };
            &&& r matches Some(e) && e.0 == id && if p == Some(i) {
                with_children(o[i].1, e.1, without(o[i].1.children@, id))
            } else {
                e.1 == o[i].1
            }
            &&& f.len() == o.len() - 1
            &&& forall|k: int|
                0 <= k < f.len() ==> {
                    let g = #[trigger] f[k];
                    let m = if k < i { k } else { k + 1 };
                    &&& g.0 == o[m].0
                    &&& if p == Some(m) {
                        with_children(o[m].1, g.1, without(o[m].1.children@, id))
                    } else {
                        g.1 == o[m].1
                    }
                }
        },
    }
}

/// No two nodes have the same id.
pub open spec fn ids_unique<T, C, Y>(s: Seq<(u64, RenderTreeNode<T, C, Y>)>) -> bool {
    forall|a: int, b: int| 0 <= a < b < s.len() ==> #[trigger] s[a].0 != #[trigger] s[b].0
}

/// `s` has a node with id `id`.
pub open spec fn has_id<T, C, Y>(s: Seq<(u64, RenderTreeNode<T, C, Y>)>, id: u64) -> bool {
    exists|k: int| 0 <= k < s.len() && #[trigger] s[k].0 == id
}

/// Law: when no two nodes share an id, a deleted node is no longer found, every other node
/// still is, and no two nodes share an id afterwards either.
pub proof fn lemma_deleted_node_is_gone<T, C, Y>(
    o: Seq<(u64, RenderTreeNode<T, C, Y>)>,
    f: Seq<(u64, RenderTreeNode<T, C, Y>)>,
    id: u64,
    r: Option<(u64, RenderTreeNode<T, C, Y>)>,
    other: u64,
)
    requires
        ids_unique(o),
        deleted(o, f, id, r),
        other != id,
    ensures
        index_of_id(f, id, 0) is None,
        has_id(o, other) == has_id(f, other),
        ids_unique(f),
{
    lemma_index_of_id(o, id, 0);
    lemma_index_of_id(f, id, 0);
    match index_of_id(o, id, 0) {
        None => {},
        Some(i) => {
            let fm = |k: int| if k < i { k } else { k + 1 };
            if let Some(j) = index_of_id(f, id, 0) {
                let m = fm(j);
                assert(f[j].0 == o[m].0);
                assert(o[i].0 == id);
            }
            if has_id(o, other) {
                let k = choose|k: int| 0 <= k < o.len() && #[trigger] o[k].0 == other;
                assert(k != i);
                let kf = if k < i { k } else { k - 1 };
                assert(f[kf].0 == o[fm(kf)].0);
            }
            if has_id(f, other) {
                let k = choose|k: int| 0 <= k < f.len() && #[trigger] f[k].0 == other;
                assert(f[k].0 == o[fm(k)].0);
            }
            assert forall|a: int, b: int| 0 <= a < b < f.len() implies #[trigger] f[a].0 != #[trigger] f[b].0 by {
                assert(f[a].0 == o[fm(a)].0);
                assert(f[b].0 == o[fm(b)].0);
            }
        },
    }
}

/// Law: after a node is inserted under an id, that id finds it.
pub proof fn lemma_inserted_node_is_found<T, C, Y>(
    o: Seq<(u64, RenderTreeNode<T, C, Y>)>,
    id: u64,
    n: RenderTreeNode<T, C, Y>,
)
    ensures
        ({
            let f = match index_of_id(o, id, 0) {
                Some(i) => o.update(i, (id, n)),
                None => o.push((id, n)),
            };
            index_of_id(f, id, 0) matches Some(j) && f[j].1 == n
        }),
{
    lemma_index_of_id(o, id, 0);
    match index_of_id(o, id, 0) {
        Some(i) => {
            let f = o.update(i, (id, n));
            lemma_index_of_id(f, id, 0);
            assert forall|m: int| 0 <= m < i implies f[m].0 != id by {
                assert(f[m] == o[m]);
            }
            assert(f[i].0 == id);
            if let Some(j) = index_of_id(f, id, 0) {
                if j < i {
                    assert(f[j].0 != id);
                }
                if j > i {
                    assert(f[i].0 != id);
                }
            }
        },
        None => {
            let f = o.push((id, n));
            lemma_index_of_id(f, id, 0);
            assert forall|m: int| 0 <= m < o.len() implies f[m].0 != id by {
                assert(f[m] == o[m]);
            }
            if let Some(j) = index_of_id(f, id, 0) {
                assert(j == o.len());
            } else {
                assert(f[o.len() as int].0 == id);
            }
        },
    }
}

/// The ids of `s` other than `x`, in order.
fn without_id(s: &Vec<u64>, x: u64) -> (r: Vec<u64>)
    ensures
        r@ == without(s@, x),
{
    let mut r: Vec<u64> = Vec::new();
    let mut i: usize = 0;
    assert(s@.take(0) =~= Seq::<u64>::empty());
    while i < s.len()
        invariant
            i <= s.len(),
            r@ == without(s@.take(i as int), x),
        decreases s.len() - i,
    {
        assert(s@.take(i + 1).drop_last() =~= s@.take(i as int));
        if s[i] != x {
            r.push(s[i]);
        }
        i += 1;
    }
    assert(s@.take(i as int) =~= s@);
    r
}

impl<T, C, Y> RenderTree<T, C, Y> {
    /// Deletes the node with the given id from the render tree, and takes it out of the
    /// children of its parent. Returns the node, if there was one.
    pub fn delete_node(&mut self, id: &u64) -> (r: Option<(u64, RenderTreeNode<T, C, Y>)>)
        ensures
            final(self).root == old(self).root,
            final(self).dirty == old(self).dirty,
            final(self).next_id == old(self).next_id,
            deleted(old(self).entries(), final(self).entries(), *id, r),
    {
        let i = match find_id(&self.nodes, *id) {
            Some(i) => i,
            None => {
                return None;
            },
        };
        let ghost o = self.nodes@;
        let ghost p: Option<int> = match o[i as int].1.parent {
            Some(pid) => index_of_id(o, pid, 0),
            None => None,
        };
        if let Some(pid) = self.nodes[i].1.parent {
            if let Some(j) = find_id(&self.nodes, pid) {
                let kept = without_id(&self.nodes[j].1.children, *id);
                let mut e = self.nodes.remove(j);
                e.1.children = kept;
                self.nodes.insert(j, e);
                assert(self.nodes@ =~= o.update(j as int, e));
                assert(with_children(o[j as int].1, e.1, without(o[j as int].1.children@, *id)));
            }
        }
        let ghost mid = self.nodes@;
        assert(mid.len() == o.len());
        assert(forall|k: int|
            0 <= k < o.len() ==> #[trigger] mid[k].0 == o[k].0 && if p == Some(k) {
                with_children(o[k].1, mid[k].1, without(o[k].1.children@, *id))
            } else {
                mid[k].1 == o[k].1
            });
        let e = self.nodes.remove(i);
        proof {
            lemma_index_of_id(o, *id, 0);
            assert(self.nodes@ =~= mid.remove(i as int));
            assert(e == mid[i as int]);
            assert forall|k: int| 0 <= k < self.nodes@.len() implies {
                let f = #[trigger] self.nodes@[k];
                let m = if k < i { k } else { k + 1 };
                &&& f.0 == o[m].0
                &&& if p == Some(m) {
                    with_children(o[m].1, f.1, without(o[m].1.children@, *id))
                } else {
                    f.1 == o[m].1
                }
            } by {
                let m = if k < i { k } else { k + 1 };
                assert(self.nodes@[k] == mid[m]);
                assert(mid[m].0 == o[m].0);
            }
        }
        Some(e)
    }

    /// Mark the given node as dirty, so it will be recalculated
    pub fn mark_dirty(&mut self, node_id: u64)
        ensures
            final(self).root == old(self).root,
            final(self).dirty == old(self).dirty,
            final(self).next_id == old(self).next_id,
            final(self).entries().len() == old(self).entries().len(),
            forall|k: int|
                0 <= k < old(self).entries().len() ==> {
                    let f = #[trigger] final(self).entries()[k];
                    let o = old(self).entries()[k];
                    &&& f.0 == o.0
                    &&& if index_of_id(old(self).entries(), node_id, 0) == Some(k) {
                        with_properties_marked(o.1, f.1, true)
                    } else {
                        f.1 == o.1
                    }
                },
    {
        self.mark_all(node_id, true);
    }

    /// Mark the given node as clean, so it will not be recalculated
    pub fn mark_clean(&mut self, node_id: u64)
        ensures
            final(self).root == old(self).root,
            final(self).dirty == old(self).dirty,
            final(self).next_id == old(self).next_id,
            final(self).entries().len() == old(self).entries().len(),
            forall|k: int|
                0 <= k < old(self).entries().len() ==> {
                    let f = #[trigger] final(self).entries()[k];
                    let o = old(self).entries()[k];
                    &&& f.0 == o.0
                    &&& if index_of_id(old(self).entries(), node_id, 0) == Some(k) {
                        with_properties_marked(o.1, f.1, false)
                    } else {
                        f.1 == o.1
                    }
                },
    {
        self.mark_all(node_id, false);
    }

    fn mark_all(&mut self, node_id: u64, dirty: bool)
        ensures
            final(self).root == old(self).root,
            final(self).dirty == old(self).dirty,
            final(self).next_id == old(self).next_id,
            final(self).entries().len() == old(self).entries().len(),
            forall|k: int|
                0 <= k < old(self).entries().len() ==> {
                    let f = #[trigger] final(self).entries()[k];
                    let o = old(self).entries()[k];
                    &&& f.0 == o.0
                    &&& if index_of_id(old(self).entries(), node_id, 0) == Some(k) {
                        with_properties_marked(o.1, f.1, dirty)
                    } else {
                        f.1 == o.1
                    }
                },
    {
        let j = match find_id(&self.nodes, node_id) {
            Some(j) => j,
            None => {
                return;
            },
        };
        let ghost o = self.nodes@;
        let mut e = self.nodes.remove(j);
        let ghost start = e;
        let mut k: usize = 0;
        while k < e.1.properties.properties.len()
            invariant
                k <= e.1.properties.properties@.len(),
                e.0 == start.0,
                e.1.properties.properties@.len() == start.1.properties.properties@.len(),
                forall|m: int|
                    0 <= m < start.1.properties.properties@.len() ==> #[trigger] e.1.properties.properties@[m] == if m < k {
                        (start.1.properties.properties@[m].0, CssProperty { dirty, ..start.1.properties.properties@[m].1 })
                    } else {
                        start.1.properties.properties@[m]
                    },
                e.1.id == start.1.id,
                e.1.css_dirty == start.1.css_dirty,
                e.1.children == start.1.children,
                e.1.parent == start.1.parent,
                e.1.name == start.1.name,
                e.1.namespace == start.1.namespace,
                e.1.data == start.1.data,
                e.1.cache == start.1.cache,
                e.1.layout == start.1.layout,
            decreases e.1.properties.properties@.len() - k,
        {
            if dirty {
                e.1.properties.properties[k].1.mark_dirty();
            } else {
                e.1.properties.properties[k].1.mark_clean();
            }
            k += 1;
        }
        self.nodes.insert(j, e);
        assert(self.nodes@ =~= o.update(j as int, e));
    }

    /// Retrieves (a copy of) the property for the given node, or None when not found
    pub fn get_property(&self, node_id: u64, prop_name: &str) -> (r: Option<CssProperty>)
        ensures
            match self.node(node_id) {
                Some(n) => match index_of_key(properties_view(n.properties.properties@), prop_name@, 0) {
                    Some(i) => r is Some && property_values_view(r->0) == property_values_view(n.properties.properties@[i].1),
                    None => r is None,
                },
                None => r is None,
            },
    {
        let j = match find_id(&self.nodes, node_id) {
            Some(j) => j,
            None => {
                return None;
            },
        };
        let props = &self.nodes[j].1.properties;
        match props.find(prop_name) {
            Some(p) => Some(p.copy()),
            None => None,
        }
    }

    /// Retrieves all properties of the given node, or None when not found
    pub fn get_all_properties(&self, node_id: u64) -> (r: Option<&CssProperties>)
        ensures
            match self.node(node_id) {
                Some(n) => r == Some(&n.properties),
                None => r is None,
            },
    {
        match find_id(&self.nodes, node_id) {
            Some(j) => Some(&self.nodes[j].1.properties),
            None => None,
        }
    }

    /// The children of the given node (a copy), if there is such a node
    pub fn children(&self, id: u64) -> (r: Option<Vec<u64>>)
        ensures
            match self.node(id) {
                Some(n) => r is Some && r->0@ == n.children@,
                None => r is None,
            },
    {
        match find_id(&self.nodes, id) {
            Some(j) => Some(self.nodes[j].1.children.clone()),
            None => None,
        }
    }

    /// Whether there is a node with the given id
    pub fn contains(&self, id: &u64) -> (r: bool)
        ensures
            r == self.node(*id) is Some,
    {
        find_id(&self.nodes, *id).is_some()
    }

    /// The parent of the given node, if there is such a node and it has one
    pub fn parent_id(&self, id: u64) -> (r: Option<u64>)
        ensures
            r == match self.node(id) {
                Some(n) => n.parent,
                None => None,
            },
    {
        match find_id(&self.nodes, id) {
            Some(j) => self.nodes[j].1.parent,
            None => None,
        }
    }

    /// The layout cache of the given node
    pub fn get_cache(&self, id: u64) -> (r: Option<&C>)
        ensures
            match self.node(id) {
                Some(n) => r == Some(&n.cache),
                None => r is None,
            },
    {
        match find_id(&self.nodes, id) {
            Some(j) => Some(&self.nodes[j].1.cache),
            None => None,
        }
    }

    /// The layout of the given node
    pub fn get_layout(&self, id: u64) -> (r: Option<&Y>)
        ensures
            match self.node(id) {
                Some(n) => r == Some(&n.layout),
                None => r is None,
            },
    {
        match find_id(&self.nodes, id) {
            Some(j) => Some(&self.nodes[j].1.layout),
            None => None,
        }
    }

    /// Sets the layout cache of the given node (nothing happens without such a node)
    pub fn set_cache(&mut self, id: u64, cache: C)
        ensures
            final(self).root == old(self).root,
            final(self).dirty == old(self).dirty,
            final(self).next_id == old(self).next_id,
            final(self).entries() == match index_of_id(old(self).entries(), id, 0) {
                Some(i) => old(self).entries().update(
                    i,
                    (old(self).entries()[i].0, RenderTreeNode { cache, ..old(self).entries()[i].1 }),
                ),
                None => old(self).entries(),
            },
    {
        if let Some(j) = find_id(&self.nodes, id) {
            let ghost o = self.nodes@;
            let mut e = self.nodes.remove(j);
            e.1.cache = cache;
            self.nodes.insert(j, e);
            assert(self.nodes@ =~= o.update(j as int, e));
        }
    }

    /// Sets the layout of the given node (nothing happens without such a node)
    pub fn set_layout(&mut self, id: u64, layout: Y)
        ensures
            final(self).root == old(self).root,
            final(self).dirty == old(self).dirty,
            final(self).next_id == old(self).next_id,
            final(self).entries() == match index_of_id(old(self).entries(), id, 0) {
                Some(i) => old(self).entries().update(
                    i,
                    (old(self).entries()[i].0, RenderTreeNode { layout, ..old(self).entries()[i].1 }),
                ),
                None => old(self).entries(),
            },
    {
        if let Some(j) = find_id(&self.nodes, id) {
            let ghost o = self.nodes@;
            let mut e = self.nodes.remove(j);
            e.1.layout = layout;
            self.nodes.insert(j, e);
            assert(self.nodes@ =~= o.update(j as int, e));
        }
    }

    /// Whether the style of the given node must be computed again (so for an unknown node)
    pub fn style_dirty(&self, id: u64) -> (r: bool)
        ensures
            r == match self.node(id) {
                Some(n) => n.css_dirty,
                None => true,
            },
    {
        match find_id(&self.nodes, id) {
            Some(j) => self.nodes[j].1.css_dirty,
            None => true,
        }
    }

    /// Marks the style of the given node as computed (nothing happens without such a node)
    pub fn clean_style(&mut self, id: u64)
        ensures
            final(self).root == old(self).root,
            final(self).dirty == old(self).dirty,
            final(self).next_id == old(self).next_id,
            final(self).entries() == match index_of_id(old(self).entries(), id, 0) {
                Some(i) => old(self).entries().update(
                    i,
                    (old(self).entries()[i].0, RenderTreeNode { css_dirty: false, ..old(self).entries()[i].1 }),
                ),
                None => old(self).entries(),
            },
    {
        if let Some(j) = find_id(&self.nodes, id) {
            let ghost o = self.nodes@;
            let mut e = self.nodes.remove(j);
            e.1.css_dirty = false;
            self.nodes.insert(j, e);
            assert(self.nodes@ =~= o.update(j as int, e));
        }
    }
}

/// The ids of the subtree under `id` in pre-order (the node itself first, an id without a
/// node stands for itself), following children at most `fuel` levels deep; `None` when that
/// is not deep enough.
pub open spec fn subtree_ids<T, C, Y>(s: Seq<(u64, RenderTreeNode<T, C, Y>)>, id: u64, fuel: nat) -> Option<Seq<u64>>
    decreases fuel, 0int,
{
    match index_of_id(s, id, 0) {
        None => Some(seq![id]),
        Some(i) => if fuel == 0 {
            None
        } else {
            match children_ids(s, s[i].1.children@, (fuel - 1) as nat) {
                Some(r) => Some(seq![id] + r),
                None => None,
            }
        },
    }
}

/// The subtrees under `cs`, one after the other.
pub open spec fn children_ids<T, C, Y>(s: Seq<(u64, RenderTreeNode<T, C, Y>)>, cs: Seq<u64>, fuel: nat) -> Option<Seq<u64>>
    decreases fuel, cs.len() + 1,
{
    if cs.len() == 0 {
        Some(Seq::empty())
    } else {
        match children_ids(s, cs.drop_last(), fuel) {
            Some(a) => match subtree_ids(s, cs.last(), fuel) {
                Some(b) => Some(a + b),
                None => None,
            },
            None => None,
        }
    }
}

/// If the subtrees under `cs` are within reach, so are those under each prefix of `cs`.
proof fn lemma_children_ids_prefix<T, C, Y>(s: Seq<(u64, RenderTreeNode<T, C, Y>)>, cs: Seq<u64>, fuel: nat, k: int)
    requires
        children_ids(s, cs, fuel) is Some,
        0 <= k <= cs.len(),
    ensures
        children_ids(s, cs.take(k), fuel) is Some,
    decreases cs.len(),
{
    if k == cs.len() {
        assert(cs.take(k) =~= cs);
    } else {
        lemma_children_ids_prefix(s, cs.drop_last(), fuel, k);
        assert(cs.drop_last().take(k) =~= cs.take(k));
    }
}

proof fn lemma_subtree_more_fuel<T, C, Y>(s: Seq<(u64, RenderTreeNode<T, C, Y>)>, id: u64, f: nat, g: nat)
    requires
        f <= g,
        subtree_ids(s, id, f) is Some,
    ensures
        subtree_ids(s, id, g) == subtree_ids(s, id, f),
    decreases f, 0int,
{
    if let Some(i) = index_of_id(s, id, 0) {
        lemma_children_more_fuel(s, s[i].1.children@, (f - 1) as nat, (g - 1) as nat);
    }
}

proof fn lemma_children_more_fuel<T, C, Y>(s: Seq<(u64, RenderTreeNode<T, C, Y>)>, cs: Seq<u64>, f: nat, g: nat)
    requires
        f <= g,
        children_ids(s, cs, f) is Some,
    ensures
        children_ids(s, cs, g) == children_ids(s, cs, f),
    decreases f, cs.len() + 1,
{
    if cs.len() > 0 {
        lemma_children_more_fuel(s, cs.drop_last(), f, g);
        lemma_subtree_more_fuel(s, cs.last(), f, g);
    }
}

/// The ids under a node do not depend on the depth allowed, once it is enough.
pub proof fn lemma_subtree_any_depth<T, C, Y>(s: Seq<(u64, RenderTreeNode<T, C, Y>)>, id: u64, f: nat)
    requires
        subtree_ids(s, id, f) is Some,
    ensures
        subtree_ids(s, id, choose|c: nat| subtree_ids(s, id, c) is Some) == subtree_ids(s, id, f),
{
    let c = choose|c: nat| subtree_ids(s, id, c) is Some;
    if c <= f {
        lemma_subtree_more_fuel(s, id, c, f);
    } else {
        lemma_subtree_more_fuel(s, id, f, c);
    }
}

/// The subtree under `id` is within reach of the nodes: going down the children ends.
pub open spec fn subtree_ends<T, C, Y>(t: &RenderTree<T, C, Y>, id: u64) -> bool {
    exists|f: nat| subtree_ids(t.entries(), id, f) is Some
}

impl<T, C, Y> RenderTree<T, C, Y> {
    /// Returns the ids of the given node and of all nodes under it, in pre-order.
    pub fn get_child_node_ids(&self, node_id: u64) -> (r: Vec<u64>)
        requires
            subtree_ends(self, node_id),
        ensures
            r@ == subtree_ids(
                self.entries(),
                node_id,
                choose|f: nat| subtree_ids(self.entries(), node_id, f) is Some,
            )->0,
    {
        let ghost f = choose|f: nat| subtree_ids(self.entries(), node_id, f) is Some;
        self.child_node_ids_within(node_id, Ghost(f))
    }

    fn child_node_ids_within(&self, node_id: u64, Ghost(fuel): Ghost<nat>) -> (r: Vec<u64>)
        requires
            subtree_ids(self.entries(), node_id, fuel) is Some,
        ensures
            r@ == subtree_ids(self.entries(), node_id, fuel)->0,
        decreases fuel,
    {
        let mut result: Vec<u64> = vec![node_id];
        let j = match find_id(&self.nodes, node_id) {
            Some(j) => j,
            None => {
                return result;
            },
        };
        let children = &self.nodes[j].1.children;
        let ghost s = self.entries();
        let ghost cs = children@;
        let ghost f1 = (fuel - 1) as nat;
        proof {
            lemma_children_ids_prefix(s, cs, f1, 0);
            assert(cs.take(0) =~= Seq::<u64>::empty());
        }
        let mut k: usize = 0;
        while k < children.len()
            invariant
                k <= children.len(),
                s == self.entries(),
                cs == children@,
                children_ids(s, cs, f1) is Some,
                children_ids(s, cs.take(k as int), f1) is Some,
                result@ == seq![node_id] + children_ids(s, cs.take(k as int), f1)->0,
                fuel > 0,
                f1 == fuel - 1,
            decreases children.len() - k,
        {
            proof {
                lemma_children_ids_prefix(s, cs, f1, k + 1);
                assert(cs.take(k + 1).drop_last() =~= cs.take(k as int));
                assert(cs.take(k + 1).last() == cs[k as int]);
            }
            let mut childs = self.child_node_ids_within(children[k], Ghost(f1));
            let ghost before = result@;
            result.append(&mut childs);
            assert(result@ =~= seq![node_id] + children_ids(s, cs.take(k + 1), f1)->0);
            k += 1;
        }
        assert(cs.take(k as int) =~= cs);
        result
    }
}

// ---------------------------------------------------------------------------------------
// Collecting the declarations that apply to a node.

/// A declaration of a style rule: the property, its values and whether it is `!important`.
pub struct CssDeclaration {
    pub property: String,
    pub value: Vec<CssValue>,
    pub important: bool,
}

/// The longhands of property `name` by its (resolved) definition: none when it has no
/// definition or is not a shorthand.
pub open spec fn longhands_of(defs: Seq<(Seq<char>, PropertyDefinition)>, name: Seq<char>) -> Seq<Seq<char>> {
    match index_of_key(defs, name, 0) {
        Some(i) => if defs[i].1.computed@.len() > 1 {
            strings_view(defs[i].1.computed@)
        } else {
            Seq::empty()
        },
        None => Seq::empty(),
    }
}

/// The properties that a declaration of `name` goes to, in order: those that each of its
/// longhands goes to, and then `name` itself. `None` when the longhands nest deeper than
/// `fuel`.
pub open spec fn declared_targets(defs: Seq<(Seq<char>, PropertyDefinition)>, name: Seq<char>, fuel: nat) -> Option<Seq<Seq<char>>>
    decreases fuel, 0int, 0int,
{
    let subs = longhands_of(defs, name);
    if subs.len() == 0 {
        Some(seq![name])
    } else if fuel == 0 {
        None
    } else {
        match targets_of_list(defs, subs, (fuel - 1) as nat) {
            Some(t) => Some(t.push(name)),
            None => None,
        }
    }
}

/// The properties that declarations of each of `names` go to, one after the other.
pub open spec fn targets_of_list(defs: Seq<(Seq<char>, PropertyDefinition)>, names: Seq<Seq<char>>, fuel: nat) -> Option<Seq<Seq<char>>>
    decreases fuel, 1int, names.len() as int,
{
    if names.len() == 0 {
        Some(Seq::empty())
    } else {
        match targets_of_list(defs, names.drop_last(), fuel) {
            Some(a) => match declared_targets(defs, names.last(), fuel) {
                Some(b) => Some(a + b),
                None => None,
            },
            None => None,
        }
    }
}

/// The properties of a node, as values, by name.
pub open spec fn props_values(v: Seq<(String, CssProperty)>) -> Seq<(Seq<char>, PropertyValuesView)> {
    v.map_values(|e: (String, CssProperty)| (e.0@, property_values_view(e.1)))
}

/// A property named `name` with no declarations yet, to be computed.
pub open spec fn fresh_property(name: Seq<char>) -> PropertyValuesView {
    PropertyValuesView {
        name,
        dirty: true,
        declared: Seq::empty(),
        cascaded: None,
        specified: CssValueView::NoneValue,
        computed: CssValueView::NoneValue,
        used: CssValueView::NoneValue,
        actual: CssValueView::NoneValue,
    }
}

/// The properties with declaration `d` added to property `name` (which is added when the
/// node does not have it yet).
pub open spec fn with_declaration(
    ps: Seq<(Seq<char>, PropertyValuesView)>,
    name: Seq<char>,
    d: DeclarationView,
) -> Seq<(Seq<char>, PropertyValuesView)> {
    match index_of_key(ps, name, 0) {
        Some(i) => ps.update(i, (ps[i].0, PropertyValuesView { declared: ps[i].1.declared.push(d), ..ps[i].1 })),
        None => ps.push((name, PropertyValuesView { declared: seq![d], ..fresh_property(name) })),
    }
}

/// The properties with declaration `d` added to each of `names` in turn.
pub open spec fn with_declarations(
    ps: Seq<(Seq<char>, PropertyValuesView)>,
    names: Seq<Seq<char>>,
    d: DeclarationView,
) -> Seq<(Seq<char>, PropertyValuesView)>
    decreases names.len(),
{
    if names.len() == 0 {
        ps
    } else {
        with_declaration(with_declarations(ps, names.drop_last(), d), names.last(), d)
    }
}

/// Adding to the names of one list and then of another is adding to those of both.
proof fn lemma_with_declarations_append(
    ps: Seq<(Seq<char>, PropertyValuesView)>,
    a: Seq<Seq<char>>,
    b: Seq<Seq<char>>,
    d: DeclarationView,
)
    ensures
        with_declarations(ps, a + b, d) == with_declarations(with_declarations(ps, a, d), b, d),
    decreases b.len(),
{
    if b.len() == 0 {
        assert(a + b =~= a);
    } else {
        assert((a + b).drop_last() =~= a + b.drop_last());
        assert((a + b).last() == b.last());
        lemma_with_declarations_append(ps, a, b.drop_last(), d);
    }
}

/// Every prefix of a list whose declarations nest no deeper than `fuel` does neither.
proof fn lemma_targets_prefix(defs: Seq<(Seq<char>, PropertyDefinition)>, names: Seq<Seq<char>>, fuel: nat, k: int)
    requires
        targets_of_list(defs, names, fuel) is Some,
        0 <= k <= names.len(),
    ensures
        targets_of_list(defs, names.take(k), fuel) is Some,
    decreases names.len(),
{
    if k == names.len() {
        assert(names.take(k) =~= names);
    } else {
        lemma_targets_prefix(defs, names.drop_last(), fuel, k);
        assert(names.drop_last().take(k) =~= names.take(k));
    }
}

/// More fuel finds the same properties.
proof fn lemma_targets_more_fuel(defs: Seq<(Seq<char>, PropertyDefinition)>, name: Seq<char>, f: nat, g: nat)
    requires
        declared_targets(defs, name, f) is Some,
        f <= g,
    ensures
        declared_targets(defs, name, g) == declared_targets(defs, name, f),
    decreases f, 0int, 0int,
{
    let subs = longhands_of(defs, name);
    if subs.len() > 0 {
        lemma_list_more_fuel(defs, subs, (f - 1) as nat, (g - 1) as nat);
    }
}

/// More fuel finds the same properties, for a list.
proof fn lemma_list_more_fuel(defs: Seq<(Seq<char>, PropertyDefinition)>, names: Seq<Seq<char>>, f: nat, g: nat)
    requires
        targets_of_list(defs, names, f) is Some,
        f <= g,
    ensures
        targets_of_list(defs, names, g) == targets_of_list(defs, names, f),
    decreases f, 1int, names.len() as int,
{
    if names.len() > 0 {
        lemma_list_more_fuel(defs, names.drop_last(), f, g);
        lemma_targets_more_fuel(defs, names.last(), f, g);
    }
}

/// The properties a declaration of `name` goes to, when the longhands nest no deeper than
/// some depth.
pub open spec fn targets(defs: Seq<(Seq<char>, PropertyDefinition)>, name: Seq<char>) -> Seq<Seq<char>> {
    declared_targets(defs, name, choose|f: nat| declared_targets(defs, name, f) is Some)->0
}

/// The properties a declaration goes to do not depend on the depth of longhands allowed,
/// once it is enough.
pub proof fn lemma_targets_any_depth(defs: Seq<(Seq<char>, PropertyDefinition)>, name: Seq<char>, f: nat)
    requires
        declared_targets(defs, name, f) is Some,
    ensures
        targets(defs, name) == declared_targets(defs, name, f)->0,
{
    let c = choose|c: nat| declared_targets(defs, name, c) is Some;
    if c <= f {
        lemma_targets_more_fuel(defs, name, c, f);
    } else {
        lemma_targets_more_fuel(defs, name, f, c);
    }
}

/// Adding declarations loses none: every property keeps its place, its name, its values
/// and its earlier declarations, which come first among its declarations.
pub proof fn lemma_declarations_kept(
    ps: Seq<(Seq<char>, PropertyValuesView)>,
    names: Seq<Seq<char>>,
    d: DeclarationView,
)
    ensures
        ps.len() <= with_declarations(ps, names, d).len(),
        forall|j: int|
            0 <= j < ps.len() ==> {
                let a = ps[j];
                let b = #[trigger] with_declarations(ps, names, d)[j];
                &&& b.0 == a.0
                &&& a.1.declared.len() <= b.1.declared.len()
                &&& b.1.declared.take(a.1.declared.len() as int) == a.1.declared
                &&& b.1 == PropertyValuesView { declared: b.1.declared, ..a.1 }
            },
    decreases names.len(),
{
    if names.len() > 0 {
        let prev = with_declarations(ps, names.drop_last(), d);
        lemma_declarations_kept(ps, names.drop_last(), d);
        let next = with_declaration(prev, names.last(), d);
        crate::shorthands::lemma_index_of_key(prev, names.last(), 0);
        assert(prev.len() <= next.len());
        assert forall|j: int| 0 <= j < ps.len() implies {
            let a = ps[j];
            let b = #[trigger] next[j];
            &&& b.0 == a.0
            &&& a.1.declared.len() <= b.1.declared.len()
            &&& b.1.declared.take(a.1.declared.len() as int) == a.1.declared
            &&& b.1 == PropertyValuesView { declared: b.1.declared, ..a.1 }
        } by {
            let m = prev[j];
            assert(m.1.declared.take(ps[j].1.declared.len() as int) == ps[j].1.declared);
            crate::shorthands::lemma_index_of_key(prev, names.last(), 0);
            match index_of_key(prev, names.last(), 0) {
                Some(i) => {
                    if i == j {
                        assert(next[j].1.declared == m.1.declared.push(d));
                        assert(next[j].1.declared.take(ps[j].1.declared.len() as int) =~= m.1.declared.take(
                            ps[j].1.declared.len() as int,
                        ));
                    }
                },
                None => {},
            }
        }
    }
}

/// The value of the declaration made from a style rule's declaration: its first value.
pub open spec fn rule_declaration(
    origin: CssOrigin,
    location: Seq<char>,
    specificity: Specificity,
    declaration: &CssDeclaration,
) -> DeclarationView {
    DeclarationView {
        value: declaration.value@[0]@,
        origin,
        important: declaration.important,
        location,
        specificity,
    }
}

/// Adds the declaration to property `property` of the node, after adding it to each of the
/// property's longhands in the same way.
fn add_declaration(
    css_map_entry: &mut CssProperties,
    defs: &CssDefinitions,
    decl: &DeclarationProperty,
    property: &str,
    Ghost(fuel): Ghost<nat>,
)
    requires
        declared_targets(defs.resolved(), property@, fuel) is Some,
    ensures
        props_values(final(css_map_entry).properties@) == with_declarations(
            props_values(old(css_map_entry).properties@),
            declared_targets(defs.resolved(), property@, fuel)->0,
            declaration_view(*decl),
        ),
    decreases fuel,
{
    let ghost d = declaration_view(*decl);
    let ghost p0 = props_values(css_map_entry.properties@);
    let entry = CssProperty::new(property);
    let ghost subs = longhands_of(defs.resolved(), property@);
    if entry.is_shorthand(defs) {
        let longhands = entry.get_props_from_shorthand(defs);
        assert(strings_view(longhands@) == subs);
        let mut i: usize = 0;
        proof {
            assert(subs.take(0) =~= Seq::<Seq<char>>::empty());
        }
        while i < longhands.len()
            invariant
                i <= longhands.len(),
                strings_view(longhands@) == subs,
                subs == longhands_of(defs.resolved(), property@),
                d == declaration_view(*decl),
                subs.len() > 0,
                fuel > 0,
                targets_of_list(defs.resolved(), subs, (fuel - 1) as nat) is Some,
                targets_of_list(defs.resolved(), subs.take(i as int), (fuel - 1) as nat) is Some,
                props_values(css_map_entry.properties@) == with_declarations(
                    p0,
                    targets_of_list(defs.resolved(), subs.take(i as int), (fuel - 1) as nat)->0,
                    d,
                ),
            decreases longhands.len() - i,
        {
            proof {
                lemma_targets_prefix(defs.resolved(), subs, (fuel - 1) as nat, i + 1);
                assert(subs.take(i + 1).drop_last() =~= subs.take(i as int));
                assert(subs.take(i + 1).last() == longhands@[i as int]@);
            }
            let ghost a = targets_of_list(defs.resolved(), subs.take(i as int), (fuel - 1) as nat)->0;
            let ghost b = declared_targets(defs.resolved(), longhands@[i as int]@, (fuel - 1) as nat)->0;
            add_declaration(css_map_entry, defs, decl, longhands[i].as_str(), Ghost((fuel - 1) as nat));
            proof {
                lemma_with_declarations_append(p0, a, b, d);
                assert(targets_of_list(defs.resolved(), subs.take(i + 1), (fuel - 1) as nat)->0 == a + b);
            }
            i += 1;
        }
        proof {
            assert(subs.take(i as int) =~= subs);
        }
    } else {
        assert(subs.len() == 0);
    }
    let ghost t = declared_targets(defs.resolved(), property@, fuel)->0;
    let ghost before = props_values(css_map_entry.properties@);
    proof {
        assert(t.drop_last() =~= (if subs.len() == 0 {
            Seq::<Seq<char>>::empty()
        } else {
            targets_of_list(defs.resolved(), subs, (fuel - 1) as nat)->0
        }));
        assert(before == with_declarations(p0, t.drop_last(), d));
        lemma_index_of_key_keys(before, properties_view(css_map_entry.properties@), property@, 0);
    }
    let ghost old_entries = css_map_entry.properties@;
    match css_map_entry.get(property) {
        Some(p) => {
            let ghost was = *p;
            p.declared.push(decl.copy());
            proof {
                crate::shorthands::lemma_index_of_key(properties_view(old_entries), property@, 0);
                let i = index_of_key(properties_view(old_entries), property@, 0)->0;
                assert(was == old_entries[i].1);
                assert(before[i] == (old_entries[i].0@, property_values_view(old_entries[i].1)));
                assert(declarations_view(p.declared@) =~= declarations_view(was.declared@).push(d));
                assert(property_values_view(*p) == PropertyValuesView {
                    declared: before[i].1.declared.push(d),
                    ..before[i].1
                });
            }
        },
        None => {
            let mut e = CssProperty::new(property);
            e.declared.push(decl.copy());
            assert(declarations_view(e.declared@) =~= seq![d]);
            let key = property.to_owned();
            css_map_entry.properties.push((key, e));
            proof {
                assert(property_values_view(e) == PropertyValuesView { declared: seq![d], ..fresh_property(property@) });
            }
        },
    }
    proof {
        assert(props_values(css_map_entry.properties@) =~= with_declaration(before, property@, d));
    }
}

/// Adds a declaration of a rule of a stylesheet (of origin `origin`, at `location`) whose
/// selector has specificity `specificity` to the properties of a node: to the property it
/// declares, and first, for a shorthand, to each of its longhands (and theirs, in turn). Each
/// property gets the first value of the declaration; a property the node does not have yet
/// is added to it.
pub fn add_property_to_map(
    css_map_entry: &mut CssProperties,
    defs: &CssDefinitions,
    origin: CssOrigin,
    location: &str,
    specificity: Specificity,
    declaration: &CssDeclaration,
)
    requires
        declaration.value@.len() > 0,
        exists|f: nat| declared_targets(defs.resolved(), declaration.property@, f) is Some,
    ensures
        props_values(final(css_map_entry).properties@) == with_declarations(
            props_values(old(css_map_entry).properties@),
            targets(defs.resolved(), declaration.property@),
            rule_declaration(origin, location@, specificity, declaration),
        ),
{
    let decl = DeclarationProperty {
        value: declaration.value[0].copy(),
        origin,
        important: declaration.important,
        location: location.to_owned(),
        specificity,
    };
    let ghost f = choose|f: nat| declared_targets(defs.resolved(), declaration.property@, f) is Some;
    add_declaration(css_map_entry, defs, &decl, declaration.property.as_str(), Ghost(f));
}

// ---------------------------------------------------------------------------------------
// The text of a text node, as it is rendered.

/// `s` without its line feeds and carriage returns.
pub open spec fn without_line_breaks(s: Seq<char>) -> Seq<char>
    decreases s.len(),
{
    if s.len() == 0 {
        s
    } else if s.last() == '\n' || s.last() == '\r' {
        without_line_breaks(s.drop_last())
    } else {
        without_line_breaks(s.drop_last()).push(s.last())
    }
}

/// The text that a text node renders: its value without leading and trailing white space,
/// and without line breaks.
pub open spec fn render_text_of(value: Seq<char>) -> Seq<char> {
    without_line_breaks(trim(value))
}

/// The text that a text node with value `value` renders (see `render_text_of`).
pub fn render_text(value: &str) -> (r: String)
    ensures
        r@ == render_text_of(value@),
{
    let kept = trim_chars(&chars_of(value));
    let mut out: Vec<char> = Vec::new();
    let mut i: usize = 0;
    while i < kept.len()
        invariant
            i <= kept.len(),
            kept@ == trim(value@),
            out@ == without_line_breaks(kept@.take(i as int)),
        decreases kept.len() - i,
    {
        let c = kept[i];
        assert(kept@.take(i + 1).drop_last() =~= kept@.take(i as int));
        assert(kept@.take(i + 1).last() == c);
        if c != '\n' && c != '\r' {
            out.push(c);
        }
        i += 1;
    }
    assert(kept@.take(i as int) =~= kept@);
    string_of(out.as_slice())
}

/// The pieces of `s` between its commas, in order (one piece, empty, for an empty `s`).
pub open spec fn split_commas(s: Seq<char>) -> Seq<Seq<char>>
    decreases s.len(),
{
    if s.len() == 0 {
        seq![Seq::empty()]
    } else {
        let r = split_commas(s.drop_last());
        if s.last() == ',' {
            r.push(Seq::empty())
        } else {
            r.update(r.len() - 1, r.last().push(s.last()))
        }
    }
}

proof fn lemma_split_commas_len(s: Seq<char>)
    ensures
        split_commas(s).len() >= 1,
    decreases s.len(),
{
    if s.len() > 0 {
        lemma_split_commas_len(s.drop_last());
    }
}

/// The font families that a `font-family` value names: the pieces of the value, without its
/// leading and trailing white space, between its commas.
pub fn font_families(value: &str) -> (r: Vec<String>)
    ensures
        strings_view(r@) == split_commas(trim(value@)),
{
    let cs = trim_chars(&chars_of(value));
    let mut families: Vec<String> = Vec::new();
    let mut cur: Vec<char> = Vec::new();
    let mut i: usize = 0;
    proof {
        assert(cs@.take(0) =~= Seq::<char>::empty());
        assert(strings_view(families@).push(cur@) =~= seq![Seq::<char>::empty()]);
    }
    while i < cs.len()
        invariant
            i <= cs.len(),
            strings_view(families@).push(cur@) == split_commas(cs@.take(i as int)),
        decreases cs.len() - i,
    {
        let c = cs[i];
        let ghost pre = cs@.take(i as int);
        assert(cs@.take(i + 1).drop_last() =~= pre);
        assert(cs@.take(i + 1).last() == c);
        proof { lemma_split_commas_len(pre); }
        if c == ',' {
            let piece = string_of(cur.as_slice());
            let ghost before = strings_view(families@);
            families.push(piece);
            cur = Vec::new();
            assert(strings_view(families@) =~= before.push(piece@));
            assert(strings_view(families@).push(cur@) =~= split_commas(pre).push(Seq::empty()));
        } else {
            let ghost before = strings_view(families@);
            let ghost c0 = cur@;
            cur.push(c);
            assert(split_commas(pre) == before.push(c0));
            assert(strings_view(families@).push(cur@) =~= split_commas(pre).update(
                split_commas(pre).len() - 1,
                split_commas(pre).last().push(c),
            ));
        }
        i += 1;
    }
    assert(cs@.take(i as int) =~= cs@);
    let piece = string_of(cur.as_slice());
    let ghost before = strings_view(families@);
    families.push(piece);
    assert(strings_view(families@) =~= before.push(piece@));
    families
}

// ---------------------------------------------------------------------------------------
// The declared values of a document node.

/// A rule of a style sheet, with the origin and location of its sheet and the specificity of
/// each of its selectors.
pub struct StyleRule {
    pub origin: CssOrigin,
    pub location: String,
    pub selectors: Vec<(CssSelector, Specificity)>,
    pub declarations: Vec<CssDeclaration>,
}

/// The property of the declaration has a definition, and its values match that definition.
pub open spec fn accepts(defs: Seq<(Seq<char>, PropertyDefinition)>, d: CssDeclaration) -> bool {
    match lookup(defs, d.property@) {
        Some(p) => tree_matches(p.syntax.view_components(), values_view(d.value@)) == Some(true),
        None => false,
    }
}

/// A declaration can be checked against its definition, and one that is accepted has a value
/// and properties to go to.
pub open spec fn declaration_ok(defs: Seq<(Seq<char>, PropertyDefinition)>, d: CssDeclaration) -> bool {
    &&& lookup(defs, d.property@) matches Some(p) ==> {
        &&& p.syntax.components@.len() == 1
        &&& tree_matches(p.syntax.view_components(), values_view(d.value@)) is Some
    }
    &&& accepts(defs, d) ==> d.value@.len() > 0 && exists|f: nat| declared_targets(defs, d.property@, f) is Some
}

/// Every selector of the rule can be matched against node `n`, and every declaration of it
/// can be checked.
pub open spec fn rule_ok(doc: Seq<SelectorNodeView>, n: int, defs: Seq<(Seq<char>, PropertyDefinition)>, r: StyleRule) -> bool {
    &&& forall|i: int| 0 <= i < r.selectors@.len() ==> selector_matches(doc, n, parts_view(#[trigger] r.selectors@[i].0.parts@)) is Some
    &&& forall|i: int| 0 <= i < r.declarations@.len() ==> declaration_ok(defs, #[trigger] r.declarations@[i])
}

/// The properties `ps` after the declarations `decls`, in order: each one accepted is added,
/// with the given origin, location and specificity, to the properties it goes to.
pub open spec fn cascade_declarations(
    defs: Seq<(Seq<char>, PropertyDefinition)>,
    origin: CssOrigin,
    location: Seq<char>,
    specificity: Specificity,
    ps: Seq<(Seq<char>, PropertyValuesView)>,
    decls: Seq<CssDeclaration>,
) -> Seq<(Seq<char>, PropertyValuesView)>
    decreases decls.len(),
{
    if decls.len() == 0 {
        ps
    } else {
        let ps1 = cascade_declarations(defs, origin, location, specificity, ps, decls.drop_last());
        let d = decls.last();
        if accepts(defs, d) {
            with_declarations(ps1, targets(defs, d.property@), rule_declaration(origin, location, specificity, &d))
        } else {
            ps1
        }
    }
}

/// The properties `ps` after rule `r`, for node `n`: its declarations once for each of the
/// selectors `sels` (of the rule), in order, that match the node.
pub open spec fn cascade_selectors(
    doc: Seq<SelectorNodeView>,
    n: int,
    defs: Seq<(Seq<char>, PropertyDefinition)>,
    r: StyleRule,
    ps: Seq<(Seq<char>, PropertyValuesView)>,
    sels: Seq<(CssSelector, Specificity)>,
) -> Seq<(Seq<char>, PropertyValuesView)>
    decreases sels.len(),
{
    if sels.len() == 0 {
        ps
    } else {
        let ps1 = cascade_selectors(doc, n, defs, r, ps, sels.drop_last());
        let sel = sels.last();
        if selector_matches(doc, n, parts_view(sel.0.parts@)) == Some(true) {
            cascade_declarations(defs, r.origin, r.location@, sel.1, ps1, r.declarations@)
        } else {
            ps1
        }
    }
}

/// The declared properties of node `n` after the rules `rules`, in order.
pub open spec fn cascade_rules(
    doc: Seq<SelectorNodeView>,
    n: int,
    defs: Seq<(Seq<char>, PropertyDefinition)>,
    rules: Seq<StyleRule>,
) -> Seq<(Seq<char>, PropertyValuesView)>
    decreases rules.len(),
{
    if rules.len() == 0 {
        Seq::empty()
    } else {
        let r = rules.last();
        cascade_selectors(doc, n, defs, r, cascade_rules(doc, n, defs, rules.drop_last()), r.selectors@)
    }
}

/// Adds the declarations that the definitions accept, in order (see `cascade_declarations`).
fn add_declarations(
    entry: &mut CssProperties,
    defs: &CssDefinitions,
    origin: CssOrigin,
    location: &str,
    specificity: Specificity,
    decls: &Vec<CssDeclaration>,
)
    requires
        forall|i: int| 0 <= i < decls@.len() ==> declaration_ok(defs.resolved(), #[trigger] decls@[i]),
    ensures
        props_values(final(entry).properties@) == cascade_declarations(
            defs.resolved(),
            origin,
            location@,
            specificity,
            props_values(old(entry).properties@),
            decls@,
        ),
{
    let ghost ps0 = props_values(entry.properties@);
    let mut i: usize = 0;
    while i < decls.len()
        invariant
            i <= decls.len(),
            forall|j: int| 0 <= j < decls@.len() ==> declaration_ok(defs.resolved(), #[trigger] decls@[j]),
            props_values(entry.properties@) == cascade_declarations(
                defs.resolved(),
                origin,
                location@,
                specificity,
                ps0,
                decls@.take(i as int),
            ),
        decreases decls.len() - i,
    {
        let decl = &decls[i];
        assert(decls@.take(i + 1).drop_last() =~= decls@.take(i as int));
        assert(decls@.take(i + 1).last() == decls@[i as int]);
        assert(declaration_ok(defs.resolved(), decls@[i as int]));
        match defs.find_property(decl.property.as_str()) {
            Some(p) => {
                if p.matches(decl.value.as_slice()) {
                    add_property_to_map(entry, defs, origin, location, specificity, decl);
                }
            },
            None => {},
        }
        i += 1;
    }
    assert(decls@.take(i as int) =~= decls@);
}

/// Adds the declarations of rule `rule` once for each of its selectors that matches node
/// `node_id` (see `cascade_selectors`).
fn add_rule(entry: &mut CssProperties, document: &Document, node_id: usize, defs: &CssDefinitions, rule: &StyleRule)
    requires
        doc_wf(document@),
        node_id < document.nodes.len(),
        rule_ok(document@, node_id as int, defs.resolved(), *rule),
    ensures
        props_values(final(entry).properties@) == cascade_selectors(
            document@,
            node_id as int,
            defs.resolved(),
            *rule,
            props_values(old(entry).properties@),
            rule.selectors@,
        ),
{
    let ghost ps0 = props_values(entry.properties@);
    let mut i: usize = 0;
    while i < rule.selectors.len()
        invariant
            i <= rule.selectors.len(),
            doc_wf(document@),
            node_id < document.nodes.len(),
            rule_ok(document@, node_id as int, defs.resolved(), *rule),
            props_values(entry.properties@) == cascade_selectors(
                document@,
                node_id as int,
                defs.resolved(),
                *rule,
                ps0,
                rule.selectors@.take(i as int),
            ),
        decreases rule.selectors.len() - i,
    {
        assert(rule.selectors@.take(i + 1).drop_last() =~= rule.selectors@.take(i as int));
        assert(rule.selectors@.take(i + 1).last() == rule.selectors@[i as int]);
        let selector = &rule.selectors[i].0;
        let specificity = rule.selectors[i].1;
        if match_selector(document, node_id, selector) {
            add_declarations(entry, defs, rule.origin, rule.location.as_str(), specificity, &rule.declarations);
        }
        i += 1;
    }
    assert(rule.selectors@.take(i as int) =~= rule.selectors@);
}

/// The declared properties of document node `node_id`: for each rule in turn, each of its
/// selectors that matches the node adds the rule's declarations that the definitions accept.
pub fn node_properties(document: &Document, node_id: usize, rules: &Vec<StyleRule>, defs: &CssDefinitions) -> (p: CssProperties)
    requires
        doc_wf(document@),
        node_id < document.nodes.len(),
        forall|i: int| 0 <= i < rules@.len() ==> rule_ok(document@, node_id as int, defs.resolved(), #[trigger] rules@[i]),
    ensures
        props_values(p.properties@) == cascade_rules(document@, node_id as int, defs.resolved(), rules@),
{
    let mut entry = CssProperties::new();
    assert(props_values(entry.properties@) =~= Seq::<(Seq<char>, PropertyValuesView)>::empty());
    let mut i: usize = 0;
    while i < rules.len()
        invariant
            i <= rules.len(),
            doc_wf(document@),
            node_id < document.nodes.len(),
            forall|j: int| 0 <= j < rules@.len() ==> rule_ok(document@, node_id as int, defs.resolved(), #[trigger] rules@[j]),
            props_values(entry.properties@) == cascade_rules(document@, node_id as int, defs.resolved(), rules@.take(i as int)),
        decreases rules.len() - i,
    {
        assert(rules@.take(i + 1).drop_last() =~= rules@.take(i as int));
        assert(rules@.take(i + 1).last() == rules@[i as int]);
        assert(rule_ok(document@, node_id as int, defs.resolved(), rules@[i as int]));
        add_rule(&mut entry, document, node_id, defs, &rules[i]);
        i += 1;
    }
    assert(rules@.take(i as int) =~= rules@);
    entry
}

// ---------------------------------------------------------------------------------------
// Wrapping the runs of inline children in anonymous boxes.

/// A node of the render tree as a value, leaving out what the layouter keeps for it.
pub struct NodeView<T> {
    pub id: u64,
    pub properties: Seq<(Seq<char>, PropertyValuesView)>,
    pub css_dirty: bool,
    pub children: Seq<u64>,
    pub parent: Option<u64>,
    pub name: Seq<char>,
    pub namespace: Option<Seq<char>>,
    pub data: RenderNodeData<T>,
}

/// The value of a node.
pub open spec fn node_view<T, C, Y>(n: RenderTreeNode<T, C, Y>) -> NodeView<T> {
    NodeView {
        id: n.id,
        properties: props_values(n.properties.properties@),
        css_dirty: n.css_dirty,
        children: n.children@,
        parent: n.parent,
        name: n.name@,
        namespace: match n.namespace {
            Some(s) => Some(s@),
            None => None,
        },
        data: n.data,
    }
}

/// The values of the nodes, under their ids.
pub open spec fn tree_view<T, C, Y>(e: Seq<(u64, RenderTreeNode<T, C, Y>)>) -> Seq<(u64, NodeView<T>)> {
    e.map_values(|x: (u64, RenderTreeNode<T, C, Y>)| (x.0, node_view(x.1)))
}

/// The entry with id `id`, if any.
pub open spec fn lookup_id<V>(s: Seq<(u64, V)>, id: u64) -> Option<V> {
    match index_of_id(s, id, 0) {
        Some(i) => Some(s[i].1),
        None => None,
    }
}

/// `s` with the entry of id `id` (if any) replaced by `v`.
pub open spec fn set_id<V>(s: Seq<(u64, V)>, id: u64, v: V) -> Seq<(u64, V)> {
    match index_of_id(s, id, 0) {
        Some(i) => s.update(i, (s[i].0, v)),
        None => s,
    }
}

/// `s` with `v` stored under `id`: in place of the entry of that id, or added at the end.
pub open spec fn put_id<V>(s: Seq<(u64, V)>, id: u64, v: V) -> Seq<(u64, V)> {
    match index_of_id(s, id, 0) {
        Some(i) => s.update(i, (id, v)),
        None => s.push((id, v)),
    }
}

/// The first position at or after `i` of `x` in `s`.
pub open spec fn first_index(s: Seq<u64>, x: u64, i: int) -> Option<int>
    decreases s.len() - i,
{
    if i < 0 || i >= s.len() {
        None
    } else if s[i] == x {
        Some(i)
    } else {
        first_index(s, x, i + 1)
    }
}

/// `s` with the first `x` in it replaced by `y`.
pub open spec fn replace_first(s: Seq<u64>, x: u64, y: u64) -> Seq<u64> {
    match first_index(s, x, 0) {
        Some(p) => s.update(p, y),
        None => s,
    }
}

/// A node counts as inline when it is text, or when it is one of the nodes whose `display`
/// computes to `inline` (listed in `inline`).
pub open spec fn counts_inline<T>(n: NodeView<T>, id: u64, inline: Seq<u64>) -> bool {
    n.data is Text || inline.contains(id)
}

/// The nodes while collapsing, with the id the next new node gets.
pub struct Collapse<T> {
    pub nodes: Seq<(u64, NodeView<T>)>,
    pub next_id: u64,
}

/// A new anonymous box with id `id` in node `parent`, holding child `child`.
pub open spec fn anonymous_box<T>(id: u64, child: u64, parent: u64) -> NodeView<T> {
    NodeView {
        id,
        properties: Seq::empty(),
        css_dirty: true,
        children: seq![child],
        parent: Some(parent),
        name: "#anonymous"@,
        namespace: None,
        data: RenderNodeData::AnonymousInline,
    }
}

/// What child `c` of node `node_id` does to the nodes, given the current anonymous box `w`
/// (while the children before it were inline): a child that is not inline ends the run;
/// an inline child moves into the current box, or into a new box that takes its place
/// among the children of its parent. Also: the box after the child, and whether the
/// child's own children are collapsed in turn (not when a node that the step needs is
/// missing). `None` when no id is left for a new box.
pub open spec fn collapse_child<T>(
    st: Collapse<T>,
    node_id: u64,
    c: u64,
    w: Option<u64>,
    inline: Seq<u64>,
) -> Option<(Collapse<T>, Option<u64>, bool)> {
    match lookup_id(st.nodes, c) {
        None => Some((st, w, false)),
        Some(child) => if !counts_inline(child, c, inline) {
            Some((st, None, true))
        } else {
            match w {
                Some(wid) => {
                    let n1 = set_id(st.nodes, c, NodeView { parent: Some(wid), ..child });
                    match lookup_id(n1, wid) {
                        None => Some((Collapse { nodes: n1, next_id: st.next_id }, w, false)),
                        Some(wr) => {
                            let n2 = set_id(n1, wid, NodeView { children: wr.children.push(c), ..wr });
                            match child.parent {
                                None => Some((Collapse { nodes: n2, next_id: st.next_id }, w, true)),
                                Some(op) => match lookup_id(n2, op) {
                                    None => Some((Collapse { nodes: n2, next_id: st.next_id }, w, false)),
                                    Some(p) => Some((
                                        Collapse {
                                            nodes: set_id(n2, op, NodeView { children: without(p.children, c), ..p }),
                                            next_id: st.next_id,
                                        },
                                        w,
                                        true,
                                    )),
                                },
                            }
                        },
                    }
                },
                None => if st.next_id == u64::MAX {
                    None
                } else {
                    let id = st.next_id;
                    let n1 = set_id(st.nodes, c, NodeView { parent: Some(id), ..child });
                    let n2 = put_id(n1, id, anonymous_box(id, c, node_id));
                    let next = (id + 1) as u64;
                    match child.parent {
                        None => Some((Collapse { nodes: n2, next_id: next }, Some(id), true)),
                        Some(op) => match lookup_id(n2, op) {
                            None => Some((Collapse { nodes: n2, next_id: next }, Some(id), false)),
                            Some(p) => Some((
                                Collapse {
                                    nodes: set_id(n2, op, NodeView { children: replace_first(p.children, c, id), ..p }),
                                    next_id: next,
                                },
                                Some(id),
                                true,
                            )),
                        },
                    }
                },
            }
        },
    }
}

/// Collapsing node `node_id`: each of its children (as they were when it started) in
/// turn, and the children of each child after it. `None` when the tree nests deeper than
/// `fuel` or ids run out.
pub open spec fn collapse_within<T>(st: Collapse<T>, node_id: u64, inline: Seq<u64>, fuel: nat) -> Option<Collapse<T>>
    decreases fuel, 1int, 0int,
{
    match lookup_id(st.nodes, node_id) {
        None => Some(st),
        Some(n) => collapse_children(st, node_id, n.children, 0, None, inline, fuel),
    }
}

/// Collapsing the children `kids` of node `node_id` from the `i`-th on, with current box `w`.
pub open spec fn collapse_children<T>(
    st: Collapse<T>,
    node_id: u64,
    kids: Seq<u64>,
    i: int,
    w: Option<u64>,
    inline: Seq<u64>,
    fuel: nat,
) -> Option<Collapse<T>>
    decreases fuel, 0int, kids.len() - i,
{
    if i < 0 || i >= kids.len() {
        Some(st)
    } else {
        match collapse_child(st, node_id, kids[i], w, inline) {
            None => None,
            Some((st1, w1, deeper)) => {
                let st2 = if !deeper {
                    Some(st1)
                } else if fuel == 0 {
                    None
                } else {
                    collapse_within(st1, kids[i], inline, (fuel - 1) as nat)
                };
                match st2 {
                    None => None,
                    Some(st3) => collapse_children(st3, node_id, kids, i + 1, w1, inline, fuel),
                }
            },
        }
    }
}

/// The state of a tree while collapsing.
pub open spec fn collapse_state<T, C, Y>(t: &RenderTree<T, C, Y>) -> Collapse<T> {
    Collapse { nodes: tree_view(t.entries()), next_id: t.next_id }
}

/// The node holds what the layouter's `C::default()` and `Y::default()` give (what a new box
/// starts with).
pub open spec fn fresh_layout<T, C: Default, Y: Default>(n: RenderTreeNode<T, C, Y>) -> bool {
    call_ensures(C::default, (), n.cache) && call_ensures(Y::default, (), n.layout)
}

/// `b` has the entries of `a` in the same places, under the same ids, and each keeps what
/// the layouter holds for it, but for nodes whose ids are in `lo .. hi` (the ids handed out
/// to new boxes, whose boxes take the place of any node with that id). The entries added
/// after those of `a` have ids in `lo .. hi`, and the node found under each id in `lo .. hi`
/// starts with the layouter's defaults.
pub open spec fn keeps_layout<T, C: Default, Y: Default>(
    a: Seq<(u64, RenderTreeNode<T, C, Y>)>,
    b: Seq<(u64, RenderTreeNode<T, C, Y>)>,
    lo: u64,
    hi: u64,
) -> bool {
    &&& a.len() <= b.len()
    &&& forall|j: int|
        0 <= j < a.len() ==> {
            &&& (#[trigger] b[j]).0 == a[j].0
            &&& (a[j].0 < lo || a[j].0 >= hi) ==> b[j].1.cache == a[j].1.cache && b[j].1.layout == a[j].1.layout
        }
    &&& forall|j: int| a.len() <= j < b.len() ==> lo <= (#[trigger] b[j]).0 < hi
    &&& forall|j: int|
        0 <= j < b.len() && lo <= (#[trigger] b[j]).0 < hi && index_of_id(b, b[j].0, 0) == Some(j)
            ==> fresh_layout(b[j].1)
}

/// The ids of the entries, as values, are those of the entries.
proof fn lemma_tree_view_ids<T, C, Y>(e: Seq<(u64, RenderTreeNode<T, C, Y>)>, id: u64, i: int)
    ensures
        index_of_id(tree_view(e), id, i) == index_of_id(e, id, i),
    decreases e.len() - i,
{
    if 0 <= i < e.len() {
        lemma_tree_view_ids(e, id, i + 1);
    }
}

/// The entry at `j` with its parent set to `parent`.
fn set_parent_at<T, C, Y>(nodes: &mut Vec<(u64, RenderTreeNode<T, C, Y>)>, j: usize, parent: Option<u64>)
    requires
        j < old(nodes)@.len(),
    ensures
        final(nodes)@ == old(nodes)@.update(j as int, (old(nodes)@[j as int].0, RenderTreeNode { parent, ..old(nodes)@[j as int].1 })),
{
    let ghost o = nodes@;
    let mut e = nodes.remove(j);
    e.1.parent = parent;
    nodes.insert(j, e);
    assert(nodes@ =~= o.update(j as int, (o[j as int].0, RenderTreeNode { parent, ..o[j as int].1 })));
}

/// The entry at `j` with its children set to `children`.
fn set_children_at<T, C, Y>(nodes: &mut Vec<(u64, RenderTreeNode<T, C, Y>)>, j: usize, children: Vec<u64>)
    requires
        j < old(nodes)@.len(),
    ensures
        final(nodes)@ == old(nodes)@.update(j as int, (old(nodes)@[j as int].0, RenderTreeNode { children, ..old(nodes)@[j as int].1 })),
{
    let ghost o = nodes@;
    let mut e = nodes.remove(j);
    e.1.children = children;
    nodes.insert(j, e);
    assert(nodes@ =~= o.update(j as int, (o[j as int].0, RenderTreeNode { children, ..o[j as int].1 })));
}

/// A copy of a list of ids.
fn copy_ids(s: &Vec<u64>) -> (r: Vec<u64>)
    ensures
        r@ == s@,
{
    let mut r: Vec<u64> = Vec::new();
    let mut i: usize = 0;
    while i < s.len()
        invariant
            i <= s.len(),
            r@ == s@.take(i as int),
        decreases s.len() - i,
    {
        r.push(s[i]);
        assert(r@ =~= s@.take(i + 1));
        i += 1;
    }
    assert(s@.take(i as int) =~= s@);
    r
}

/// Whether `x` is one of `s`.
fn contains_id(s: &[u64], x: u64) -> (r: bool)
    ensures
        r == s@.contains(x),
{
    let mut i: usize = 0;
    while i < s.len()
        invariant
            i <= s.len(),
            forall|k: int| 0 <= k < i ==> s@[k] != x,
        decreases s.len() - i,
    {
        if s[i] == x {
            assert(s@[i as int] == x);
            return true;
        }
        i += 1;
    }
    false
}

/// The first position of `x` in `s`.
fn first_position(s: &Vec<u64>, x: u64) -> (r: Option<usize>)
    ensures
        match r {
            Some(p) => p < s@.len() && first_index(s@, x, 0) == Some(p as int),
            None => first_index(s@, x, 0) is None,
        },
{
    let mut i: usize = 0;
    while i < s.len()
        invariant
            i <= s.len(),
            first_index(s@, x, 0) == first_index(s@, x, i as int),
        decreases s.len() - i,
    {
        if s[i] == x {
            return Some(i);
        }
        i += 1;
    }
    None
}

/// Replacing an entry and taking the values commute.
proof fn lemma_tree_view_update<T, C, Y>(e: Seq<(u64, RenderTreeNode<T, C, Y>)>, j: int, x: (u64, RenderTreeNode<T, C, Y>))
    requires
        0 <= j < e.len(),
    ensures
        tree_view(e.update(j, x)) == tree_view(e).update(j, (x.0, node_view(x.1))),
{
    assert(tree_view(e.update(j, x)) =~= tree_view(e).update(j, (x.0, node_view(x.1))));
}

/// Updating an entry keeps the ids and what the layouter holds, when it keeps those of the
/// node.
proof fn lemma_keeps_update<T, C: Default, Y: Default>(
    e: Seq<(u64, RenderTreeNode<T, C, Y>)>,
    j: int,
    n: RenderTreeNode<T, C, Y>,
    lo: u64,
    hi: u64,
)
    requires
        lo == hi,
        0 <= j < e.len(),
        n.cache == e[j].1.cache,
        n.layout == e[j].1.layout,
    ensures
        keeps_layout(e, e.update(j, (e[j].0, n)), lo, hi),
{
}

/// `keeps_layout` composes over growing ranges of ids.
proof fn lemma_keeps_trans<T, C: Default, Y: Default>(
    a: Seq<(u64, RenderTreeNode<T, C, Y>)>,
    b: Seq<(u64, RenderTreeNode<T, C, Y>)>,
    c: Seq<(u64, RenderTreeNode<T, C, Y>)>,
    lo: u64,
    mid: u64,
    hi: u64,
)
    requires
        keeps_layout(a, b, lo, mid),
        keeps_layout(b, c, mid, hi),
        lo <= mid <= hi,
    ensures
        keeps_layout(a, c, lo, hi),
{
    assert forall|j: int| 0 <= j < a.len() implies {
        &&& (#[trigger] c[j]).0 == a[j].0
        &&& (a[j].0 < lo || a[j].0 >= hi) ==> c[j].1.cache == a[j].1.cache && c[j].1.layout == a[j].1.layout
    } by {
        assert(b[j].0 == a[j].0);
        assert(c[j].0 == b[j].0);
    }
    assert forall|j: int| a.len() <= j < c.len() implies lo <= (#[trigger] c[j]).0 < hi by {
        if j < b.len() {
            assert(c[j].0 == b[j].0);
            assert(lo <= b[j].0 < mid);
        }
    }
    assert forall|j: int|
        0 <= j < c.len() && lo <= (#[trigger] c[j]).0 < hi && index_of_id(c, c[j].0, 0) == Some(j)
            implies fresh_layout(c[j].1) by {
        let x = c[j].0;
        if x < mid {
            if j >= b.len() {
                assert(mid <= c[j].0);
            } else {
                assert(c[j].0 == b[j].0);
                lemma_index_of_id(c, x, 0);
                lemma_index_of_id(b, x, 0);
                assert forall|m: int| 0 <= m < j implies b[m].0 != x by {
                    assert(c[m].0 == b[m].0);
                    assert(c[m].0 != x);
                }
                match index_of_id(b, x, 0) {
                    Some(k) => {
                        if k > j {
                            assert(b[j].0 == x);
                        }
                        assert(k == j);
                    },
                    None => {
                        assert(b[j].0 == x);
                    },
                }
                assert(fresh_layout(b[j].1));
                assert(c[j].1.cache == b[j].1.cache && c[j].1.layout == b[j].1.layout);
            }
        }
    }
}

impl<T, C: Default, Y: Default> RenderTree<T, C, Y> {
    /// One child of node `node_id`, as `collapse_child` says; `wrapper` is the current box.
    fn collapse_child_step(&mut self, node_id: u64, c: u64, wrapper: &mut Option<u64>, inline: &[u64]) -> (deeper: bool)
        requires
            collapse_child(collapse_state(old(self)), node_id, c, *old(wrapper), inline@) is Some,
        ensures
            (collapse_state(final(self)), *final(wrapper), deeper) == collapse_child(
                collapse_state(old(self)),
                node_id,
                c,
                *old(wrapper),
                inline@,
            )->0,
            keeps_layout(old(self).entries(), final(self).entries(), old(self).next_id, final(self).next_id),
            old(self).next_id <= final(self).next_id,
            final(self).root == old(self).root,
            final(self).dirty == old(self).dirty,
    {
        let ghost e0 = self.nodes@;
        let ghost lo = self.next_id;
        let ghost st = collapse_state(self);
        proof {
            lemma_tree_view_ids(e0, c, 0);
            lemma_index_of_id(e0, c, 0);
        }
        let ci = match find_id(&self.nodes, c) {
            Some(ci) => ci,
            None => {
                return false;
            },
        };
        let ghost child = node_view(e0[ci as int].1);
        assert(lookup_id(st.nodes, c) == Some(child));
        let inl = self.nodes[ci].1.is_text() || contains_id(inline, c);
        if !inl {
            *wrapper = None;
            return true;
        }
        let old_parent = self.nodes[ci].1.parent;
        match *wrapper {
            Some(wid) => {
                set_parent_at(&mut self.nodes, ci, Some(wid));
                let ghost e1 = self.nodes@;
                let ghost n1 = set_id(st.nodes, c, NodeView { parent: Some(wid), ..child });
                proof {
                    lemma_tree_view_update(e0, ci as int, e1[ci as int]);
                    assert(tree_view(e1) == n1);
                    lemma_keeps_update(e0, ci as int, e1[ci as int].1, lo, lo);
                    lemma_tree_view_ids(e1, wid, 0);
                    lemma_index_of_id(e1, wid, 0);
                }
                let wi = match find_id(&self.nodes, wid) {
                    Some(wi) => wi,
                    None => {
                        return false;
                    },
                };
                let ghost wr = node_view(e1[wi as int].1);
                let mut kids = copy_ids(&self.nodes[wi].1.children);
                kids.push(c);
                set_children_at(&mut self.nodes, wi, kids);
                let ghost e2 = self.nodes@;
                let ghost n2 = set_id(n1, wid, NodeView { children: wr.children.push(c), ..wr });
                proof {
                    lemma_tree_view_update(e1, wi as int, e2[wi as int]);
                    assert(tree_view(e2) == n2);
                    lemma_keeps_update(e1, wi as int, e2[wi as int].1, lo, lo);
                    lemma_keeps_trans(e0, e1, e2, lo, lo, lo);
                }
                match old_parent {
                    None => true,
                    Some(op) => {
                        proof {
                            lemma_tree_view_ids(e2, op, 0);
                            lemma_index_of_id(e2, op, 0);
                        }
                        let pi = match find_id(&self.nodes, op) {
                            Some(pi) => pi,
                            None => {
                                return false;
                            },
                        };
                        let kept = without_id(&self.nodes[pi].1.children, c);
                        set_children_at(&mut self.nodes, pi, kept);
                        proof {
                            let e3 = self.nodes@;
                            lemma_tree_view_update(e2, pi as int, e3[pi as int]);
                            lemma_keeps_update(e2, pi as int, e3[pi as int].1, lo, lo);
                            lemma_keeps_trans(e0, e2, e3, lo, lo, lo);
                        }
                        true
                    },
                }
            },
            None => {
                let id = self.next_id;
                set_parent_at(&mut self.nodes, ci, Some(id));
                let ghost e1 = self.nodes@;
                let ghost n1 = set_id(st.nodes, c, NodeView { parent: Some(id), ..child });
                proof {
                    lemma_tree_view_update(e0, ci as int, e1[ci as int]);
                    assert(tree_view(e1) == n1);
                    lemma_keeps_update(e0, ci as int, e1[ci as int].1, lo, lo);
                    lemma_tree_view_ids(e1, id, 0);
                    lemma_index_of_id(e1, id, 0);
                }
                let cache = C::default();
                let layout = Y::default();
                let wrapper_node = RenderTreeNode {
                    id,
                    properties: CssProperties::new(),
                    css_dirty: true,
                    children: vec![c],
                    parent: Some(node_id),
                    name: "#anonymous".to_owned(),
                    namespace: None,
                    data: RenderNodeData::AnonymousInline,
                    cache,
                    layout,
                };
                proof {
                    assert(props_values(wrapper_node.properties.properties@) =~= Seq::<(Seq<char>, PropertyValuesView)>::empty());
                    assert(wrapper_node.children@ =~= seq![c]);
                    assert(node_view(wrapper_node) == anonymous_box::<T>(id, c, node_id));
                }
                self.insert_node(id, wrapper_node);
                self.next_id = id + 1;
                *wrapper = Some(id);
                let ghost e2 = self.nodes@;
                let ghost n2 = put_id(n1, id, anonymous_box::<T>(id, c, node_id));
                proof {
                    match index_of_id(e1, id, 0) {
                        Some(k) => {
                            lemma_tree_view_update(e1, k, (id, wrapper_node));
                        },
                        None => {
                            assert(tree_view(e2) =~= tree_view(e1).push((id, node_view(wrapper_node))));
                        },
                    }
                    assert(tree_view(e2) == n2);
                    assert(fresh_layout(wrapper_node));
                    lemma_inserted_node_is_found(e1, id, wrapper_node);
                    lemma_index_of_id(e1, id, 0);
                    assert(keeps_layout(e1, e2, lo, self.next_id));
                    lemma_keeps_trans(e0, e1, e2, lo, lo, self.next_id);
                    lemma_tree_view_ids(e2, old_parent->0, 0);
                    lemma_index_of_id(e2, old_parent->0, 0);
                }
                match old_parent {
                    None => true,
                    Some(op) => {
                        let pi = match find_id(&self.nodes, op) {
                            Some(pi) => pi,
                            None => {
                                return false;
                            },
                        };
                        let ghost p = node_view(e2[pi as int].1);
                        match first_position(&self.nodes[pi].1.children, c) {
                            Some(pos) => {
                                let mut kids = copy_ids(&self.nodes[pi].1.children);
                                kids.set(pos, id);
                                assert(kids@ == replace_first(p.children, c, id));
                                set_children_at(&mut self.nodes, pi, kids);
                                proof {
                                    let e3 = self.nodes@;
                                    lemma_tree_view_update(e2, pi as int, e3[pi as int]);
                                    lemma_keeps_update(e2, pi as int, e3[pi as int].1, self.next_id, self.next_id);
                                    lemma_keeps_trans(e0, e2, e3, lo, self.next_id, self.next_id);
                                }
                            },
                            None => {
                                assert(replace_first(p.children, c, id) == p.children);
                                assert(NodeView { children: p.children, ..p } == p);
                                assert(set_id(n2, op, p) =~= n2);
                            },
                        }
                        true
                    },
                }
            },
        }
    }
}

impl<T, C: Default, Y: Default> RenderTree<T, C, Y> {
    /// Collapses node `node_id` as `collapse_within` says with depth `fuel`.
    fn collapse_fueled(&mut self, node_id: u64, inline: &[u64], Ghost(fuel): Ghost<nat>)
        requires
            collapse_within(collapse_state(old(self)), node_id, inline@, fuel) is Some,
        ensures
            collapse_state(final(self)) == collapse_within(collapse_state(old(self)), node_id, inline@, fuel)->0,
            keeps_layout(old(self).entries(), final(self).entries(), old(self).next_id, final(self).next_id),
            old(self).next_id <= final(self).next_id,
            final(self).root == old(self).root,
            final(self).dirty == old(self).dirty,
        decreases fuel, 1int,
    {
        let ghost st0 = collapse_state(self);
        let ghost e0 = self.nodes@;
        let ghost lo = self.next_id;
        proof {
            lemma_tree_view_ids(e0, node_id, 0);
            lemma_index_of_id(e0, node_id, 0);
        }
        let i = match find_id(&self.nodes, node_id) {
            Some(i) => i,
            None => {
                return;
            },
        };
        let kids = copy_ids(&self.nodes[i].1.children);
        let ghost target = collapse_within(st0, node_id, inline@, fuel);
        assert(target == collapse_children(st0, node_id, kids@, 0, None, inline@, fuel));
        let mut wrapper: Option<u64> = None;
        let mut k: usize = 0;
        while k < kids.len()
            invariant
                k <= kids.len(),
                target is Some,
                target == collapse_children(collapse_state(self), node_id, kids@, k as int, wrapper, inline@, fuel),
                keeps_layout(e0, self.entries(), lo, self.next_id),
                lo <= self.next_id,
                self.root == old(self).root,
                self.dirty == old(self).dirty,
            decreases kids.len() - k,
        {
            let ghost before = self.entries();
            let ghost mid_lo = self.next_id;
            let c = kids[k];
            let deeper = self.collapse_child_step(node_id, c, &mut wrapper, inline);
            proof {
                lemma_keeps_trans(e0, before, self.entries(), lo, mid_lo, self.next_id);
            }
            if deeper {
                let ghost b2 = self.entries();
                let ghost m2 = self.next_id;
                self.collapse_fueled(c, inline, Ghost((fuel - 1) as nat));
                proof {
                    lemma_keeps_trans(e0, b2, self.entries(), lo, m2, self.next_id);
                }
            }
            k += 1;
        }
    }

    /// Wraps each run of inline children of node `node_id` (text, and the nodes listed in
    /// `inline`, whose `display` computes to `inline`) in a new anonymous box that takes the
    /// place of the run's first child, and does the same, in turn, in each child it does not
    /// leave out (see `collapse_within`). The new boxes get ids from `next_id` on and start with
    /// the layouter's defaults; every other node keeps what the layouter holds for it.
    pub fn collapse_inline(&mut self, node_id: u64, inline: &[u64])
        requires
            exists|f: nat| collapse_within(collapse_state(old(self)), node_id, inline@, f) is Some,
        ensures
            collapse_state(final(self)) == collapse_within(
                collapse_state(old(self)),
                node_id,
                inline@,
                choose|f: nat| collapse_within(collapse_state(old(self)), node_id, inline@, f) is Some,
            )->0,
            keeps_layout(old(self).entries(), final(self).entries(), old(self).next_id, final(self).next_id),
            old(self).next_id <= final(self).next_id,
            final(self).root == old(self).root,
            final(self).dirty == old(self).dirty,
    {
        let ghost f = choose|f: nat| collapse_within(collapse_state(self), node_id, inline@, f) is Some;
        self.collapse_fueled(node_id, inline, Ghost(f));
    }
}

/// More depth collapses the same way.
proof fn lemma_collapse_more_fuel<T>(st: Collapse<T>, node_id: u64, inline: Seq<u64>, f: nat, g: nat)
    requires
        collapse_within(st, node_id, inline, f) is Some,
        f <= g,
    ensures
        collapse_within(st, node_id, inline, g) == collapse_within(st, node_id, inline, f),
    decreases f, 1int, 0int,
{
    match lookup_id(st.nodes, node_id) {
        None => {},
        Some(n) => lemma_collapse_children_more_fuel(st, node_id, n.children, 0, None, inline, f, g),
    }
}

/// More depth collapses the same children the same way.
proof fn lemma_collapse_children_more_fuel<T>(
    st: Collapse<T>,
    node_id: u64,
    kids: Seq<u64>,
    i: int,
    w: Option<u64>,
    inline: Seq<u64>,
    f: nat,
    g: nat,
)
    requires
        collapse_children(st, node_id, kids, i, w, inline, f) is Some,
        f <= g,
    ensures
        collapse_children(st, node_id, kids, i, w, inline, g) == collapse_children(st, node_id, kids, i, w, inline, f),
    decreases f, 0int, kids.len() - i,
{
    if 0 <= i < kids.len() {
        match collapse_child(st, node_id, kids[i], w, inline) {
            None => {},
            Some((st1, w1, deeper)) => {
                if deeper {
                    lemma_collapse_more_fuel(st1, kids[i], inline, (f - 1) as nat, (g - 1) as nat);
                    let st3 = collapse_within(st1, kids[i], inline, (f - 1) as nat)->0;
                    lemma_collapse_children_more_fuel(st3, node_id, kids, i + 1, w1, inline, f, g);
                } else {
                    lemma_collapse_children_more_fuel(st1, node_id, kids, i + 1, w1, inline, f, g);
                }
            },
        }
    }
}

/// How a node collapses does not depend on the depth allowed, once it is enough.
pub proof fn lemma_collapse_any_depth<T>(st: Collapse<T>, node_id: u64, inline: Seq<u64>, f: nat)
    requires
        collapse_within(st, node_id, inline, f) is Some,
    ensures
        collapse_within(st, node_id, inline, choose|g: nat| collapse_within(st, node_id, inline, g) is Some)
            == collapse_within(st, node_id, inline, f),
{
    let c = choose|g: nat| collapse_within(st, node_id, inline, g) is Some;
    if c <= f {
        lemma_collapse_more_fuel(st, node_id, inline, c, f);
    } else {
        lemma_collapse_more_fuel(st, node_id, inline, f, c);
    }
}

// ---------------------------------------------------------------------------------------
// Printing the tree.

/// The line for node `id` named `name` at depth `depth`: two spaces per level, the id, a
/// colon, a space and the name.
pub open spec fn tree_line(depth: nat, id: u64, name: Seq<char>) -> Seq<char> {
    Seq::new(2 * depth, |k: int| ' ') + decimal_chars(id as nat) + seq![':', ' '] + name
}

/// The lines of the subtree under `id` at depth `depth`, in pre-order (none for an id
/// without a node), following children at most `fuel` levels deep; `None` when that is not
/// deep enough.
pub open spec fn tree_lines_within<T, C, Y>(
    s: Seq<(u64, RenderTreeNode<T, C, Y>)>,
    id: u64,
    depth: nat,
    fuel: nat,
) -> Option<Seq<Seq<char>>>
    decreases fuel, 0int,
{
    match index_of_id(s, id, 0) {
        None => Some(Seq::empty()),
        Some(i) => if fuel == 0 {
            None
        } else {
            match children_lines(s, s[i].1.children@, depth + 1, (fuel - 1) as nat) {
                Some(r) => Some(seq![tree_line(depth, id, s[i].1.name@)] + r),
                None => None,
            }
        },
    }
}

/// The lines of the subtrees under `cs`, one after the other.
pub open spec fn children_lines<T, C, Y>(
    s: Seq<(u64, RenderTreeNode<T, C, Y>)>,
    cs: Seq<u64>,
    depth: nat,
    fuel: nat,
) -> Option<Seq<Seq<char>>>
    decreases fuel, cs.len() + 1,
{
    if cs.len() == 0 {
        Some(Seq::empty())
    } else {
        match children_lines(s, cs.drop_last(), depth, fuel) {
            Some(a) => match tree_lines_within(s, cs.last(), depth, fuel) {
                Some(b) => Some(a + b),
                None => None,
            },
            None => None,
        }
    }
}

/// If the lines under `cs` are within reach, so are those under each prefix of `cs`.
proof fn lemma_children_lines_prefix<T, C, Y>(
    s: Seq<(u64, RenderTreeNode<T, C, Y>)>,
    cs: Seq<u64>,
    depth: nat,
    fuel: nat,
    k: int,
)
    requires
        children_lines(s, cs, depth, fuel) is Some,
        0 <= k <= cs.len(),
    ensures
        children_lines(s, cs.take(k), depth, fuel) is Some,
    decreases cs.len(),
{
    if k == cs.len() {
        assert(cs.take(k) =~= cs);
    } else {
        lemma_children_lines_prefix(s, cs.drop_last(), depth, fuel, k);
        assert(cs.drop_last().take(k) =~= cs.take(k));
    }
}

impl<T, C, Y> RenderTree<T, C, Y> {
    /// The lines of the subtree under `node_id` at depth `depth` (see `tree_lines_within`).
    fn print_tree_from(&self, node_id: u64, depth: usize, Ghost(fuel): Ghost<nat>) -> (r: Vec<String>)
        requires
            tree_lines_within(self.entries(), node_id, depth as nat, fuel) is Some,
            depth + fuel < usize::MAX,
        ensures
            strings_view(r@) == tree_lines_within(self.entries(), node_id, depth as nat, fuel)->0,
        decreases fuel,
    {
        let i = match find_id(&self.nodes, node_id) {
            Some(i) => i,
            None => {
                let r: Vec<String> = Vec::new();
                assert(strings_view(r@) =~= Seq::<Seq<char>>::empty());
                return r;
            },
        };
        let mut line: Vec<char> = Vec::new();
        let mut k: usize = 0;
        while k < depth
            invariant
                k <= depth,
                line@ == Seq::new(2 * k as nat, |m: int| ' '),
            decreases depth - k,
        {
            line.push(' ');
            line.push(' ');
            assert(line@ =~= Seq::new(2 * (k + 1) as nat, |m: int| ' '));
            k += 1;
        }
        push_all(&mut line, &u64_to_chars(node_id));
        line.push(':');
        line.push(' ');
        push_all(&mut line, &chars_of(self.nodes[i].1.name.as_str()));
        assert(line@ =~= tree_line(depth as nat, node_id, self.nodes@[i as int].1.name@));
        let mut r: Vec<String> = vec![string_of(line.as_slice())];
        let ghost cs = self.nodes@[i as int].1.children@;
        let ghost f1 = (fuel - 1) as nat;
        assert(strings_view(r@) =~= seq![tree_line(depth as nat, node_id, self.nodes@[i as int].1.name@)]);
        let mut j: usize = 0;
        assert(cs.take(0) =~= Seq::<u64>::empty());
        while j < self.nodes[i].1.children.len()
            invariant
                j <= cs.len(),
                i < self.nodes@.len(),
                cs == self.nodes@[i as int].1.children@,
                fuel > 0,
                f1 == fuel - 1,
                children_lines(self.entries(), cs, (depth + 1) as nat, f1) is Some,
                depth + 1 + f1 < usize::MAX,
                strings_view(r@) == seq![tree_line(depth as nat, node_id, self.nodes@[i as int].1.name@)]
                    + children_lines(self.entries(), cs.take(j as int), (depth + 1) as nat, f1)->0,
            decreases cs.len() - j,
        {
            proof {
                lemma_children_lines_prefix(self.entries(), cs, (depth + 1) as nat, f1, j + 1);
                assert(cs.take(j + 1).drop_last() =~= cs.take(j as int));
                assert(cs.take(j + 1).last() == cs[j as int]);
            }
            let mut sub = self.print_tree_from(self.nodes[i].1.children[j], depth + 1, Ghost(f1));
            let ghost before = r@;
            let ghost added = sub@;
            r.append(&mut sub);
            assert(strings_view(r@) =~= strings_view(before) + strings_view(added));
            j += 1;
        }
        assert(cs.take(j as int) =~= cs);
        r
    }

    /// The lines that print the tree from its root: a line per node, in pre-order, each
    /// indented by two spaces per level (see `tree_line`).
    pub fn print_tree(&self) -> (r: Vec<String>)
        requires
            exists|f: nat| f < usize::MAX && tree_lines_within(self.entries(), self.root, 0, f) is Some,
        ensures
            strings_view(r@) == tree_lines_within(
                self.entries(),
                self.root,
                0,
                choose|f: nat| f < usize::MAX && tree_lines_within(self.entries(), self.root, 0, f) is Some,
            )->0,
    {
        let ghost f = choose|f: nat| f < usize::MAX && tree_lines_within(self.entries(), self.root, 0, f) is Some;
        self.print_tree_from(self.root, 0, Ghost(f))
    }
}

// ---------------------------------------------------------------------------------------
// Removing the nodes that are not rendered.

/// A node as a value, with what the layouter keeps for it.
pub open spec fn full_view<T, C, Y>(n: RenderTreeNode<T, C, Y>) -> (NodeView<T>, C, Y) {
    (node_view(n), n.cache, n.layout)
}

/// The nodes as values, with what the layouter keeps for them, under their ids.
pub open spec fn full_tree_view<T, C, Y>(e: Seq<(u64, RenderTreeNode<T, C, Y>)>) -> Seq<(u64, (NodeView<T>, C, Y))> {
    e.map_values(|x: (u64, RenderTreeNode<T, C, Y>)| (x.0, full_view(x.1)))
}

/// What deleting node `id` leaves of the nodes `o` (see `delete_node`): the node is taken out
/// of the children of its parent, then removed.
pub open spec fn delete_view<T, C, Y>(o: Seq<(u64, (NodeView<T>, C, Y))>, id: u64) -> Seq<(u64, (NodeView<T>, C, Y))> {
    match index_of_id(o, id, 0) {
        None => o,
        Some(i) => {
            let o1 = match o[i].1.0.parent {
                Some(pid) => match index_of_id(o, pid, 0) {
                    Some(pi) => o.update(
                        pi,
                        (o[pi].0, (NodeView { children: without(o[pi].1.0.children, id), ..o[pi].1.0 }, o[pi].1.1, o[pi].1.2)),
                    ),
                    None => o,
                },
                None => o,
            };
            o1.remove(i)
        },
    }
}

/// What deleting the nodes `ids`, one after the other, leaves of the nodes `o`.
pub open spec fn delete_all<T, C, Y>(o: Seq<(u64, (NodeView<T>, C, Y))>, ids: Seq<u64>) -> Seq<(u64, (NodeView<T>, C, Y))>
    decreases ids.len(),
{
    if ids.len() == 0 {
        o
    } else {
        delete_view(delete_all(o, ids.drop_last()), ids.last())
    }
}

/// The ids of the entries, with what they hold as values, are those of the entries.
proof fn lemma_full_view_ids<T, C, Y>(e: Seq<(u64, RenderTreeNode<T, C, Y>)>, id: u64, i: int)
    ensures
        index_of_id(full_tree_view(e), id, i) == index_of_id(e, id, i),
    decreases e.len() - i,
{
    if 0 <= i < e.len() {
        lemma_full_view_ids(e, id, i + 1);
    }
}

/// What `delete_node` does is `delete_view`.
proof fn lemma_deleted_view<T, C, Y>(
    o: Seq<(u64, RenderTreeNode<T, C, Y>)>,
    f: Seq<(u64, RenderTreeNode<T, C, Y>)>,
    id: u64,
    r: Option<(u64, RenderTreeNode<T, C, Y>)>,
)
    requires
        deleted(o, f, id, r),
    ensures
        full_tree_view(f) == delete_view(full_tree_view(o), id),
{
    let v = full_tree_view(o);
    lemma_full_view_ids(o, id, 0);
    lemma_index_of_id(o, id, 0);
    match index_of_id(o, id, 0) {
        None => {},
        Some(i) => {
            let pid = o[i].1.parent;
            if let Some(q) = pid {
                lemma_full_view_ids(o, q, 0);
                lemma_index_of_id(o, q, 0);
            }
            assert(v.len() == o.len());
            assert(v[i].1.0.parent == pid);
            let p: Option<int> = match pid {
                Some(q) => index_of_id(o, q, 0),
                None => None,
            };
            let o1 = match p {
                Some(pi) => v.update(
                    pi,
                    (v[pi].0, (NodeView { children: without(v[pi].1.0.children, id), ..v[pi].1.0 }, v[pi].1.1, v[pi].1.2)),
                ),
                None => v,
            };
            assert(delete_view(v, id) == o1.remove(i));
            assert forall|k: int| 0 <= k < f.len() implies #[trigger] full_tree_view(f)[k] == o1.remove(i)[k] by {
                let m = if k < i { k } else { k + 1 };
                assert(o1.remove(i)[k] == o1[m]);
                if p == Some(m) {
                    assert(with_children(o[m].1, f[k].1, without(o[m].1.children@, id)));
                }
            }
            assert(full_tree_view(f) =~= o1.remove(i));
        },
    }
}

/// The names of the elements that are not rendered.
pub open spec fn unrendered_elements() -> Seq<Seq<char>> {
    seq!["head"@, "script"@, "style"@, "svg"@, "noscript"@]
}

/// Whether `name` is one of the elements that are not rendered.
fn is_unrendered_element(name: &str) -> (r: bool)
    ensures
        r == unrendered_elements().contains(name@),
{
    let names: Vec<&str> = vec!["head", "script", "style", "svg", "noscript"];
    let ghost u = unrendered_elements();
    assert(names@.map_values(|n: &str| n@) =~= u);
    let k = chars_of(name);
    let mut i: usize = 0;
    while i < names.len()
        invariant
            i <= names.len(),
            names@.map_values(|n: &str| n@) == u,
            u == unrendered_elements(),
            k@ == name@,
            forall|j: int| 0 <= j < i ==> u[j] != name@,
        decreases names.len() - i,
    {
        assert(u[i as int] == names@[i as int]@);
        if chars_eq(&chars_of(names[i]), &k) {
            assert(u.contains(name@));
            return true;
        }
        i += 1;
    }
    false
}

/// The ids of the subtree under `id` (the node first), as `get_child_node_ids` gives them.
pub open spec fn subtree_of<T, C, Y>(s: Seq<(u64, RenderTreeNode<T, C, Y>)>, id: u64) -> Seq<u64> {
    subtree_ids(s, id, choose|f: nat| subtree_ids(s, id, f) is Some)->0
}

/// Whether the whole subtree of the node `e` goes: an element that is not rendered, or a
/// node whose `display` computes to `none` (listed in `hidden`), but not a text of white
/// space only (listed in `blank`), which goes alone.
pub open spec fn goes_with_subtree<T, C, Y>(e: (u64, RenderTreeNode<T, C, Y>), hidden: Seq<u64>, blank: Seq<u64>) -> bool {
    if e.1.data matches RenderNodeData::Element(el) && unrendered_elements().contains(el.name@) {
        true
    } else if e.1.data is Text && blank.contains(e.0) {
        false
    } else {
        hidden.contains(e.0)
    }
}

/// The ids that go because of node `e`: its subtree and then the node itself again, or the
/// node alone for a text of white space only, or none.
pub open spec fn removed_for<T, C, Y>(
    s: Seq<(u64, RenderTreeNode<T, C, Y>)>,
    e: (u64, RenderTreeNode<T, C, Y>),
    hidden: Seq<u64>,
    blank: Seq<u64>,
) -> Seq<u64> {
    if goes_with_subtree(e, hidden, blank) {
        subtree_of(s, e.0).push(e.0)
    } else if e.1.data is Text && blank.contains(e.0) {
        seq![e.0]
    } else {
        Seq::empty()
    }
}

/// The ids that go because of the first `n` nodes, in order.
pub open spec fn removed_upto<T, C, Y>(
    s: Seq<(u64, RenderTreeNode<T, C, Y>)>,
    n: int,
    hidden: Seq<u64>,
    blank: Seq<u64>,
) -> Seq<u64>
    decreases n,
{
    if n <= 0 {
        Seq::empty()
    } else {
        removed_upto(s, n - 1, hidden, blank) + removed_for(s, s[n - 1], hidden, blank)
    }
}

/// Going down the children ends for every node whose subtree goes.
pub open spec fn removal_ends<T, C, Y>(t: &RenderTree<T, C, Y>, hidden: Seq<u64>, blank: Seq<u64>) -> bool {
    forall|k: int|
        0 <= k < t.entries().len() && goes_with_subtree(#[trigger] t.entries()[k], hidden, blank) ==> subtree_ends(
            t,
            t.entries()[k].0,
        )
}

/// `c` is ASCII white space: space, tab, line feed, form feed or carriage return.
pub open spec fn is_ascii_space(c: char) -> bool {
    c == ' ' || c == '\t' || c == '\n' || c == '\x0C' || c == '\r'
}

/// The text holds nothing but ASCII white space.
pub open spec fn is_blank(s: Seq<char>) -> bool {
    forall|i: int| 0 <= i < s.len() ==> is_ascii_space(#[trigger] s[i])
}

/// The ids of the texts that hold nothing but white space, in order.
pub open spec fn blank_ids(texts: Seq<(u64, Seq<char>)>) -> Seq<u64>
    decreases texts.len(),
{
    if texts.len() == 0 {
        Seq::empty()
    } else if is_blank(texts.last().1) {
        blank_ids(texts.drop_last()).push(texts.last().0)
    } else {
        blank_ids(texts.drop_last())
    }
}

/// The texts, by id, as characters.
pub open spec fn texts_view(texts: Seq<(u64, String)>) -> Seq<(u64, Seq<char>)> {
    texts.map_values(|t: (u64, String)| (t.0, t.1@))
}

/// Whether a text holds nothing but ASCII white space.
pub fn text_is_blank(text: &str) -> (r: bool)
    ensures
        r == is_blank(text@),
{
    let cs = chars_of(text);
    let mut i: usize = 0;
    while i < cs.len()
        invariant
            i <= cs.len(),
            cs@ == text@,
            forall|j: int| 0 <= j < i ==> is_ascii_space(#[trigger] cs@[j]),
        decreases cs.len() - i,
    {
        let c = cs[i];
        if !(c == ' ' || c == '\t' || c == '\n' || c == '\x0C' || c == '\r') {
            return false;
        }
        i += 1;
    }
    true
}

/// The ids of the text nodes, given with their texts, that hold nothing but white space
/// (those that `remove_unrenderable_nodes` takes as blank).
pub fn blank_text_ids(texts: &Vec<(u64, String)>) -> (r: Vec<u64>)
    ensures
        r@ == blank_ids(texts_view(texts@)),
{
    let ghost tv = texts_view(texts@);
    let mut r: Vec<u64> = Vec::new();
    let mut i: usize = 0;
    while i < texts.len()
        invariant
            i <= texts.len(),
            tv == texts_view(texts@),
            r@ == blank_ids(tv.take(i as int)),
        decreases texts.len() - i,
    {
        assert(tv.take(i + 1).drop_last() =~= tv.take(i as int));
        assert(tv.take(i + 1).last() == (texts@[i as int].0, texts@[i as int].1@));
        if text_is_blank(texts[i].1.as_str()) {
            r.push(texts[i].0);
        }
        i += 1;
    }
    assert(tv.take(i as int) =~= tv);
    r
}

impl<T, C, Y> RenderTree<T, C, Y> {
    /// Removes the nodes that are not rendered: elements such as `head` and `script` with
    /// all nodes under them, texts of white space only (listed in `blank`, see `blank_text_ids`), and nodes whose
    /// `display` computes to `none` (listed in `hidden`) with all nodes under them. The ids
    /// to delete are collected first, node by node (see `removed_upto`), then deleted one
    /// after the other.
    pub fn remove_unrenderable_nodes(&mut self, hidden: &[u64], blank: &[u64])
        requires
            removal_ends(old(self), hidden@, blank@),
        ensures
            full_tree_view(final(self).entries()) == delete_all(
                full_tree_view(old(self).entries()),
                removed_upto(old(self).entries(), old(self).entries().len() as int, hidden@, blank@),
            ),
            final(self).root == old(self).root,
            final(self).dirty == old(self).dirty,
            final(self).next_id == old(self).next_id,
    {
        let ghost s = self.entries();
        let mut delete_list: Vec<u64> = Vec::new();
        let mut k: usize = 0;
        while k < self.nodes.len()
            invariant
                k <= self.nodes.len(),
                self.entries() == s,
                removal_ends(self, hidden@, blank@),
                delete_list@ == removed_upto(s, k as int, hidden@, blank@),
            decreases self.nodes.len() - k,
        {
            let id = self.nodes[k].0;
            let ghost e = s[k as int];
            let unrendered = match &self.nodes[k].1.data {
                RenderNodeData::Element(el) => is_unrendered_element(el.name.as_str()),
                _ => false,
            };
            let blank_text = self.nodes[k].1.is_text() && contains_id(blank, id);
            let ghost before = delete_list@;
            if unrendered || (!blank_text && contains_id(hidden, id)) {
                assert(goes_with_subtree(e, hidden@, blank@));
                let mut sub = self.get_child_node_ids(id);
                delete_list.append(&mut sub);
                delete_list.push(id);
            } else if blank_text {
                assert(!goes_with_subtree(e, hidden@, blank@));
                delete_list.push(id);
            } else {
                assert(!goes_with_subtree(e, hidden@, blank@));
            }
            assert(delete_list@ =~= before + removed_for(s, e, hidden@, blank@));
            k += 1;
        }
        let ghost v0 = full_tree_view(s);
        let mut j: usize = 0;
        assert(delete_list@.take(0) =~= Seq::<u64>::empty());
        while j < delete_list.len()
            invariant
                j <= delete_list.len(),
                full_tree_view(self.entries()) == delete_all(v0, delete_list@.take(j as int)),
                self.root == old(self).root,
                self.dirty == old(self).dirty,
                self.next_id == old(self).next_id,
            decreases delete_list.len() - j,
        {
            let ghost before = self.entries();
            let r = self.delete_node(&delete_list[j]);
            proof {
                lemma_deleted_view(before, self.entries(), delete_list@[j as int], r);
                assert(delete_list@.take(j + 1).drop_last() =~= delete_list@.take(j as int));
            }
            j += 1;
        }
        assert(delete_list@.take(j as int) =~= delete_list@);
    }
}

// ---------------------------------------------------------------------------------------
// What removing the unrendered nodes leaves.

/// Some node of `o` has id `x`.
pub open spec fn view_has<V>(o: Seq<(u64, V)>, x: u64) -> bool {
    exists|k: int| 0 <= k < o.len() && #[trigger] o[k].0 == x
}

/// No two nodes of `o` share an id.
pub open spec fn view_ids_unique<V>(o: Seq<(u64, V)>) -> bool {
    forall|a: int, b: int| 0 <= a < b < o.len() ==> #[trigger] o[a].0 != #[trigger] o[b].0
}

/// Deleting a node removes its id, and only its id, from the ids of the nodes.
proof fn lemma_delete_view_ids<T, C, Y>(o: Seq<(u64, (NodeView<T>, C, Y))>, id: u64)
    requires
        view_ids_unique(o),
    ensures
        view_ids_unique(delete_view(o, id)),
        forall|x: u64| #[trigger] view_has(delete_view(o, id), x) <==> (view_has(o, x) && x != id),
{
    lemma_index_of_id(o, id, 0);
    match index_of_id(o, id, 0) {
        None => {
            assert forall|x: u64| view_has(o, x) implies x != id by {
                let k = choose|k: int| 0 <= k < o.len() && #[trigger] o[k].0 == x;
                assert(o[k].0 != id);
            }
        },
        Some(i) => {
            let o1 = match o[i].1.0.parent {
                Some(pid) => match index_of_id(o, pid, 0) {
                    Some(pi) => o.update(
                        pi,
                        (o[pi].0, (NodeView { children: without(o[pi].1.0.children, id), ..o[pi].1.0 }, o[pi].1.1, o[pi].1.2)),
                    ),
                    None => o,
                },
                None => o,
            };
            if let Some(pid) = o[i].1.0.parent {
                lemma_index_of_id(o, pid, 0);
            }
            assert(o1.len() == o.len());
            assert forall|m: int| 0 <= m < o.len() implies #[trigger] o1[m].0 == o[m].0 by {}
            let r = o1.remove(i);
            assert(r == delete_view(o, id));
            assert forall|k: int| 0 <= k < r.len() implies #[trigger] r[k].0 == o[if k < i { k } else { k + 1 }].0 by {
                assert(o1[if k < i { k } else { k + 1 }].0 == o[if k < i { k } else { k + 1 }].0);
            }
            assert forall|a: int, b: int| 0 <= a < b < r.len() implies #[trigger] r[a].0 != #[trigger] r[b].0 by {
                let ma = if a < i { a } else { a + 1 };
                let mb = if b < i { b } else { b + 1 };
                assert(r[a].0 == o[ma].0);
                assert(r[b].0 == o[mb].0);
            }
            assert forall|x: u64| view_has(r, x) <==> (view_has(o, x) && x != id) by {
                if view_has(r, x) {
                    let k = choose|k: int| 0 <= k < r.len() && #[trigger] r[k].0 == x;
                    let m = if k < i { k } else { k + 1 };
                    assert(r[k].0 == o[m].0);
                    assert(o[i].0 == id);
                    if m < i {
                        assert(o[m].0 != o[i].0);
                    } else {
                        assert(o[i].0 != o[m].0);
                    }
                }
                if view_has(o, x) && x != id {
                    let m = choose|m: int| 0 <= m < o.len() && #[trigger] o[m].0 == x;
                    assert(m != i);
                    let k = if m < i { m } else { m - 1 };
                    assert(r[k].0 == o[m].0);
                }
            }
        },
    }
}

/// Deleting the nodes `ids` removes exactly those ids from the ids of the nodes.
proof fn lemma_delete_all_ids<T, C, Y>(o: Seq<(u64, (NodeView<T>, C, Y))>, ids: Seq<u64>)
    requires
        view_ids_unique(o),
    ensures
        view_ids_unique(delete_all(o, ids)),
        forall|x: u64| #[trigger] view_has(delete_all(o, ids), x) <==> (view_has(o, x) && !ids.contains(x)),
    decreases ids.len(),
{
    if ids.len() > 0 {
        let i1 = ids.drop_last();
        lemma_delete_all_ids(o, i1);
        lemma_delete_view_ids(delete_all(o, i1), ids.last());
        assert forall|x: u64| ids.contains(x) <==> (i1.contains(x) || x == ids.last()) by {
            if ids.contains(x) {
                let j = choose|j: int| 0 <= j < ids.len() && ids[j] == x;
                if j < ids.len() - 1 {
                    assert(i1[j] == x);
                }
            }
            if i1.contains(x) {
                let j = choose|j: int| 0 <= j < i1.len() && i1[j] == x;
                assert(ids[j] == x);
            }
            if x == ids.last() {
                assert(ids[ids.len() - 1] == x);
            }
        }
        let d1 = delete_all(o, i1);
        assert(i1 =~= ids.drop_last());
        assert(delete_all(o, ids) == delete_view(d1, ids.last()));
        assert forall|x: u64| view_has(delete_all(o, ids), x) <==> (view_has(o, x) && !ids.contains(x)) by {
            assert(view_has(delete_view(d1, ids.last()), x) <==> (view_has(d1, x) && x != ids.last()));
            assert(view_has(d1, x) <==> (view_has(o, x) && !i1.contains(x)));
        }
    } else {
        assert forall|x: u64| #[trigger] view_has(delete_all(o, ids), x) <==> (view_has(o, x) && !ids.contains(x)) by {
            assert(delete_all(o, ids) == o);
        }
    }
}

/// The ids that go because of the first `n` nodes hold, for each of those nodes that goes
/// with its subtree, the node and its whole subtree.
proof fn lemma_removed_upto_covers<T, C, Y>(
    s: Seq<(u64, RenderTreeNode<T, C, Y>)>,
    n: int,
    hidden: Seq<u64>,
    blank: Seq<u64>,
    k: int,
    x: u64,
)
    requires
        0 <= k < n <= s.len(),
        goes_with_subtree(s[k], hidden, blank),
        x == s[k].0 || subtree_of(s, s[k].0).contains(x),
    ensures
        removed_upto(s, n, hidden, blank).contains(x),
    decreases n,
{
    let before = removed_upto(s, n - 1, hidden, blank);
    let here = removed_for(s, s[n - 1], hidden, blank);
    assert(removed_upto(s, n, hidden, blank) == before + here);
    if k == n - 1 {
        let sub = subtree_of(s, s[k].0);
        assert(here == sub.push(s[k].0));
        let j = if x == s[k].0 {
            sub.len() as int
        } else {
            choose|j: int| 0 <= j < sub.len() && sub[j] == x
        };
        assert(here[j] == x);
        assert((before + here)[before.len() + j] == x);
    } else {
        lemma_removed_upto_covers(s, n - 1, hidden, blank, k, x);
        let j = choose|j: int| 0 <= j < before.len() && before[j] == x;
        assert((before + here)[j] == x);
    }
}

/// The element names `head`, `script`, `style`, `svg` and `noscript`.
pub open spec fn is_head_script_style_svg_or_noscript(name: Seq<char>) -> bool {
    name == "head"@ || name == "script"@ || name == "style"@ || name == "svg"@ || name == "noscript"@
}

/// Law: when no two nodes share an id, removing the unrendered nodes leaves no element named
/// `head`, `script`, `style`, `svg` or `noscript`, and nothing that was under one of them.
pub proof fn law_unrendered_elements_are_removed<T, C, Y>(
    s: Seq<(u64, RenderTreeNode<T, C, Y>)>,
    hidden: Seq<u64>,
    blank: Seq<u64>,
    k: int,
    x: u64,
)
    requires
        ids_unique(s),
        0 <= k < s.len(),
        s[k].1.data matches RenderNodeData::Element(el) && is_head_script_style_svg_or_noscript(el.name@),
        x == s[k].0 || subtree_of(s, s[k].0).contains(x),
    ensures
        !view_has(delete_all(full_tree_view(s), removed_upto(s, s.len() as int, hidden, blank)), x),
{
    let u = unrendered_elements();
    if let RenderNodeData::Element(el) = s[k].1.data {
        let nm = el.name@;
        if nm == "head"@ {
            assert(u[0] == nm);
        } else if nm == "script"@ {
            assert(u[1] == nm);
        } else if nm == "style"@ {
            assert(u[2] == nm);
        } else if nm == "svg"@ {
            assert(u[3] == nm);
        } else {
            assert(u[4] == nm);
        }
        assert(u.contains(nm));
    }
    assert(goes_with_subtree(s[k], hidden, blank));
    lemma_removed_upto_covers(s, s.len() as int, hidden, blank, k, x);
    let v = full_tree_view(s);
    assert forall|a: int, b: int| 0 <= a < b < v.len() implies #[trigger] v[a].0 != #[trigger] v[b].0 by {
        assert(v[a].0 == s[a].0 && v[b].0 == s[b].0);
    }
    lemma_delete_all_ids(v, removed_upto(s, s.len() as int, hidden, blank));
}

} // verus!
