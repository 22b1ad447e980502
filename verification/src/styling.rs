//! Matching CSS selectors against the nodes of a document, and the priority of declarations
//! in the cascade.
use vstd::prelude::*;
use crate::css_value::{CssValue, CssValueView};
use crate::scan::{find, find_from, is_unicode_whitespace, is_whitespace, lemma_find_from_bounds, starts_with_at, sub_chars, tag};
use crate::text::{chars_eq, chars_of, string_eq};

verus! {

// ---------------------------------------------------------------------------------------
// The document as selectors see it.

/// The element data of a node: its tag name, classes and attributes.
#[derive(Debug)]
pub struct ElementData {
    /// The tag name
    pub name: String,
    /// The classes
    pub classes: Vec<String>,
    /// The attributes, as name and value (the first one of a name counts)
    pub attributes: Vec<(String, String)>,
}

/// A node of a document.
#[derive(Debug)]
pub struct Node {
    /// The id of the node, its index in the document
    pub id: usize,
    /// The id of the parent node
    pub parent: Option<usize>,
    /// The element data, for element nodes
    pub element: Option<ElementData>,
}

/// A document: its nodes, indexed by id. Node 0 is the root.
#[derive(Debug)]
pub struct Document {
    pub nodes: Vec<Node>,
}

/// The element data as a mathematical value.
pub struct ElementView {
    pub name: Seq<char>,
    pub classes: Seq<Seq<char>>,
    pub attributes: Seq<(Seq<char>, Seq<char>)>,
}

/// A node as a mathematical value.
pub struct NodeView {
    pub id: int,
    pub parent: Option<int>,
    pub element: Option<ElementView>,
}

/// The characters of each string.
pub open spec fn strings_seq(v: Seq<String>) -> Seq<Seq<char>> {
    v.map_values(|c: String| c@)
}

/// The characters of each pair of strings.
pub open spec fn pairs_seq(v: Seq<(String, String)>) -> Seq<(Seq<char>, Seq<char>)> {
    v.map_values(|a: (String, String)| (a.0@, a.1@))
}

/// The value of element data.
pub open spec fn element_view(e: ElementData) -> ElementView {
    ElementView {
        name: e.name@,
        classes: strings_seq(e.classes@),
        attributes: pairs_seq(e.attributes@),
    }
}

/// The value of a node.
pub open spec fn node_view(n: Node) -> NodeView {
    NodeView {
        id: n.id as int,
        parent: match n.parent {
            Some(p) => Some(p as int),
            None => None,
        },
        element: match n.element {
            Some(e) => Some(element_view(e)),
            None => None,
        },
    }
}

impl View for Document {
    type V = Seq<NodeView>;

    open spec fn view(&self) -> Seq<NodeView> {
        self.nodes@.map_values(|n: Node| node_view(n))
    }
}

/// `rank` ranks each node of the document above its parent (where the parent is a node of
/// the document).
pub open spec fn parent_ranks(doc: Seq<NodeView>, rank: Seq<nat>) -> bool {
    &&& rank.len() == doc.len()
    &&& forall|i: int|
        0 <= i < doc.len() ==> ((#[trigger] doc[i]).parent matches Some(p) ==> (0 <= p < doc.len() ==> rank[p] < rank[i]))
}

/// A well-formed document: every node sits at the index of its id (the nodes are stored by
/// id), and no node is its own ancestor, so that each chain of parents ends.
pub open spec fn doc_wf(doc: Seq<NodeView>) -> bool {
    &&& forall|i: int| 0 <= i < doc.len() ==> #[trigger] doc[i].id == i
    &&& exists|rank: Seq<nat>| parent_ranks(doc, rank)
}

/// Ranks of the nodes under which every parent ranks below its children, where there are
/// such ranks.
pub open spec fn doc_rank(doc: Seq<NodeView>) -> Seq<nat> {
    choose|rank: Seq<nat>| parent_ranks(doc, rank)
}

/// In a well-formed document, `doc_rank` ranks every parent below its children.
pub proof fn lemma_doc_rank(doc: Seq<NodeView>)
    requires
        doc_wf(doc),
    ensures
        parent_ranks(doc, doc_rank(doc)),
{
}

// ---------------------------------------------------------------------------------------
// Selectors.

/// The type of a selector part.
#[derive(Debug, Clone, Copy, PartialEq, Eq, Structural)]
pub enum CssSelectorType {
    /// `*`
    Universal,
    /// `[name]`, `[name=value]`, ...
    Attribute,
    /// `.class`
    Class,
    /// `#id`
    Id,
    /// `div`
    Type,
    /// `:hover`
    PseudoClass,
    /// `::before`
    PseudoElement,
    /// ` `, `>`, `+`, `~`
    Combinator,
}

/// How an attribute selector compares values.
#[derive(Debug, Clone, Copy, PartialEq, Eq, Structural)]
pub enum MatcherType {
    /// `[name]`: the attribute is present
    Present,
    /// `[name=value]`
    Equals,
    /// `[name~=value]`
    Includes,
    /// `[name|=value]`
    DashMatch,
    /// `[name^=value]`
    PrefixMatch,
    /// `[name$=value]`
    SuffixMatch,
    /// `[name*=value]`
    SubstringMatch,
}

/// A part of a selector.
#[derive(Debug)]
pub struct CssSelectorPart {
    pub type_: CssSelectorType,
    pub value: String,
    pub name: String,
    pub flags: String,
    pub matcher: MatcherType,
}

/// A selector: its parts from left to right.
#[derive(Debug)]
pub struct CssSelector {
    pub parts: Vec<CssSelectorPart>,
}

/// A selector part as a mathematical value.
pub struct PartView {
    pub type_: CssSelectorType,
    pub value: Seq<char>,
    pub name: Seq<char>,
    pub flags: Seq<char>,
    pub matcher: MatcherType,
}

impl View for CssSelectorPart {
    type V = PartView;

    open spec fn view(&self) -> PartView {
        PartView { type_: self.type_, value: self.value@, name: self.name@, flags: self.flags@, matcher: self.matcher }
    }
}

/// The values of selector parts.
pub open spec fn parts_view(v: Seq<CssSelectorPart>) -> Seq<PartView> {
    v.map_values(|p: CssSelectorPart| p@)
}

/// What `str::to_lowercase` gives for a string.
pub uninterp spec fn lowercase(s: Seq<char>) -> Seq<char>;

/// The value of the first attribute with the given name.
pub open spec fn attribute_of(attrs: Seq<(Seq<char>, Seq<char>)>, name: Seq<char>) -> Option<Seq<char>>
    decreases attrs.len(),
{
    if attrs.len() == 0 {
        None
    } else if attrs[0].0 == name {
        Some(attrs[0].1)
    } else {
        attribute_of(attrs.drop_first(), name)
    }
}

/// The words of `s`: its maximal runs of characters other than white space.
pub open spec fn words_from(s: Seq<char>, p: int, start: Option<int>) -> Seq<Seq<char>>
    decreases s.len() - p,
{
    if p < 0 || p >= s.len() {
        match start {
            Some(b) => seq![s.subrange(b, s.len() as int)],
            None => Seq::empty(),
        }
    } else if is_unicode_whitespace(s[p]) {
        match start {
            Some(b) => seq![s.subrange(b, p)] + words_from(s, p + 1, None),
            None => words_from(s, p + 1, None),
        }
    } else {
        match start {
            Some(b) => words_from(s, p + 1, Some(b)),
            None => words_from(s, p + 1, Some(p)),
        }
    }
}

/// `wanted` and `got` are both lower-cased when the flags ask for a case-insensitive match.
pub open spec fn attribute_compare(part: PartView, got: Seq<char>) -> bool {
    let insensitive = part.flags.len() == 1 && (part.flags[0] == 'i' || part.flags[0] == 'I');
    let wanted = if insensitive {
        lowercase(part.value)
    } else {
        part.value
    };
    let got = if insensitive {
        lowercase(got)
    } else {
        got
    };
    match part.matcher {
        MatcherType::Present => true,
        MatcherType::Equals => wanted == got,
        MatcherType::Includes => words_from(wanted, 0, None).contains(got),
        MatcherType::DashMatch => got == wanted || starts_with_at(got, 0, wanted.push('-')),
        MatcherType::PrefixMatch => starts_with_at(got, 0, wanted),
        MatcherType::SuffixMatch => wanted.len() <= got.len() && starts_with_at(got, got.len() - wanted.len(), wanted),
        MatcherType::SubstringMatch => find_from(got, 0, wanted) is Some,
    }
}

/// The parent of node `i`, where it is a node of the document (in a well-formed document,
/// one that ranks below `i`).
pub open spec fn parent_of(doc: Seq<NodeView>, i: int) -> Option<int> {
    match doc[i].parent {
        Some(p) => if 0 <= p < doc.len() && doc_rank(doc)[p] < doc_rank(doc)[i] {
            Some(p)
        } else {
            None
        },
        None => None,
    }
}

/// In a well-formed document, the parent of a node is the parent it names, where that is a
/// node of the document, whatever its id.
pub proof fn lemma_parent_of(doc: Seq<NodeView>, i: int)
    requires
        doc_wf(doc),
        0 <= i < doc.len(),
    ensures
        parent_of(doc, i) == match doc[i].parent {
            Some(p) => if 0 <= p < doc.len() {
                Some(p)
            } else {
                None
            },
            None => None,
        },
{
    lemma_doc_rank(doc);
}

/// The measure of a position in the document: the rank of the node plus one, or zero.
pub open spec fn node_rank(doc: Seq<NodeView>, cur: Option<int>) -> int {
    match cur {
        Some(i) => if 0 <= i < doc.len() {
            doc_rank(doc)[i] as int + 1
        } else {
            0
        },
        None => 0,
    }
}

/// Matches the selector parts (in reverse order: the subject first) from the node `cur` up
/// through its ancestors. Gives whether they matched and the parts left; `None` where matching
/// cannot go on (an unknown combinator).
pub open spec fn selector_loop(doc: Seq<NodeView>, cur: Option<int>, parts: Seq<PartView>) -> Option<(bool, Seq<PartView>)>
    decreases parts.len(), node_rank(doc, cur), 0int,
{
    if parts.len() == 0 {
        Some((true, parts))
    } else {
        match cur {
            None => Some((false, parts)),
            Some(i) => if i < 0 || i >= doc.len() {
                Some((false, parts))
            } else if i == 0 {
                Some((false, parts))
            } else {
                let node = doc[i];
                let part = parts[0];
                let rest = parts.drop_first();
                let up = parent_of(doc, i);
                match part.type_ {
                    CssSelectorType::Universal => selector_loop(doc, up, rest),
                    CssSelectorType::Type => match node.element {
                        Some(e) => if part.value != e.name {
                            Some((false, rest))
                        } else {
                            selector_loop(doc, up, rest)
                        },
                        None => Some((false, rest)),
                    },
                    CssSelectorType::Class => match node.element {
                        Some(e) => if !e.classes.contains(part.value) {
                            Some((false, rest))
                        } else {
                            selector_loop(doc, up, rest)
                        },
                        None => Some((false, rest)),
                    },
                    CssSelectorType::Id => match node.element {
                        Some(e) => {
                            let id = match attribute_of(e.attributes, "id"@) {
                                Some(v) => v,
                                None => Seq::empty(),
                            };
                            if id != part.value {
                                Some((false, rest))
                            } else {
                                selector_loop(doc, up, rest)
                            }
                        },
                        None => Some((false, rest)),
                    },
                    CssSelectorType::Attribute => match node.element {
                        Some(e) => match attribute_of(e.attributes, part.name) {
                            Some(v) => if !attribute_compare(part, v) {
                                Some((false, rest))
                            } else {
                                selector_loop(doc, up, rest)
                            },
                            None => Some((false, rest)),
                        },
                        None => Some((false, rest)),
                    },
                    CssSelectorType::PseudoClass => Some((false, rest)),
                    CssSelectorType::PseudoElement => Some((false, rest)),
                    CssSelectorType::Combinator => if part.value == " "@ {
                        match selector_from(doc, i, rest) {
                            None => None,
                            Some((r, left)) => {
                                let next = if r {
                                    left
                                } else {
                                    seq![part] + left
                                };
                                if next.len() <= parts.len() {
                                    selector_loop(doc, up, next)
                                } else {
                                    None
                                }
                            },
                        }
                    } else if part.value == ">"@ {
                        match selector_from(doc, i, rest) {
                            None => None,
                            Some((r, left)) => if !r {
                                Some((false, left))
                            } else if left.len() <= parts.len() {
                                selector_loop(doc, up, left)
                            } else {
                                None
                            },
                        }
                    } else if part.value == "+"@ || part.value == "~"@ {
                        selector_loop(doc, up, rest)
                    } else {
                        None
                    },
                }
            },
        }
    }
}

/// Matches the selector parts from node `node_id` on (`match_selector_part`).
pub open spec fn selector_from(doc: Seq<NodeView>, node_id: int, parts: Seq<PartView>) -> Option<(bool, Seq<PartView>)>
    decreases parts.len(), node_rank(doc, Some(node_id)), 1int,
{
    if 0 <= node_id < doc.len() {
        selector_loop(doc, Some(node_id), parts)
    } else {
        None
    }
}

/// Whether a selector matches a node: its parts, the last one first, from the node up.
pub open spec fn selector_matches(doc: Seq<NodeView>, node_id: int, parts: Seq<PartView>) -> Option<bool> {
    match selector_from(doc, node_id, parts.reverse()) {
        Some((r, _)) => Some(r),
        None => None,
    }
}

/// Where `t` occurs in `s` at or after `p`, `find_from` finds an occurrence.
proof fn lemma_find_from_finds(s: Seq<char>, p: int, t: Seq<char>, q: int)
    requires
        0 <= p <= q,
        starts_with_at(s, q, t),
    ensures
        find_from(s, p, t) is Some,
    decreases q - p,
{
    if p < q && !starts_with_at(s, p, t) {
        lemma_find_from_finds(s, p + 1, t, q);
    }
}

/// The value an attribute selector part compares with, and the attribute value as compared:
/// both lower-cased when the flags ask for a case-insensitive match.
pub open spec fn compared_values(part: PartView, got: Seq<char>) -> (Seq<char>, Seq<char>) {
    if part.flags.len() == 1 && (part.flags[0] == 'i' || part.flags[0] == 'I') {
        (lowercase(part.value), lowercase(got))
    } else {
        (part.value, got)
    }
}

/// Law: what each attribute matcher asks of the attribute value `g` and the wanted value `w`:
/// presence always matches; `=` asks `g == w`; `^=` that `g` starts with `w`; `$=` that `g`
/// ends with `w`; `*=` that `g` contains `w`; `|=` that `g` is `w` or starts with `w-`.
pub proof fn law_attribute_matchers(part: PartView, got: Seq<char>)
    ensures
        ({
            let (w, g) = compared_values(part, got);
            let hit = attribute_compare(part, got);
            &&& part.matcher == MatcherType::Present ==> hit
            &&& part.matcher == MatcherType::Equals ==> (hit <==> g == w)
            &&& part.matcher == MatcherType::PrefixMatch ==> (hit <==> exists|x: Seq<char>| g == w + x)
            &&& part.matcher == MatcherType::SuffixMatch ==> (hit <==> exists|x: Seq<char>| g == x + w)
            &&& part.matcher == MatcherType::SubstringMatch ==> (hit <==> exists|x: Seq<char>, y: Seq<char>| g == x + w + y)
            &&& part.matcher == MatcherType::DashMatch ==> (hit <==> (g == w || exists|x: Seq<char>| g == w + seq!['-'] + x))
        }),
{
    let (w, g) = compared_values(part, got);
    let hit = attribute_compare(part, got);
    match part.matcher {
        MatcherType::PrefixMatch => {
            if hit {
                let x = g.subrange(w.len() as int, g.len() as int);
                assert(g =~= w + x);
            }
            if exists|x: Seq<char>| g == w + x {
                let x = choose|x: Seq<char>| g == w + x;
                assert(g.subrange(0, w.len() as int) =~= w);
            }
        },
        MatcherType::SuffixMatch => {
            if hit {
                let x = g.subrange(0, g.len() - w.len());
                assert(g =~= x + w);
            }
            if exists|x: Seq<char>| g == x + w {
                let x = choose|x: Seq<char>| g == x + w;
                assert(g.subrange(g.len() - w.len(), g.len() as int) =~= w);
            }
        },
        MatcherType::SubstringMatch => {
            lemma_find_from_bounds(g, 0, w);
            if hit {
                let q = find_from(g, 0, w)->0;
                let x = g.subrange(0, q);
                let y = g.subrange(q + w.len(), g.len() as int);
                assert(g.subrange(q, q + w.len()) == w);
                assert(g =~= x + w + y);
            }
            if exists|x: Seq<char>, y: Seq<char>| g == x + w + y {
                let (x, y) = choose|x: Seq<char>, y: Seq<char>| g == x + w + y;
                assert(g.subrange(x.len() as int, (x.len() + w.len()) as int) =~= w);
                lemma_find_from_finds(g, 0, w, x.len() as int);
            }
        },
        MatcherType::DashMatch => {
            let d = w.push('-');
            assert(d =~= w + seq!['-']);
            if starts_with_at(g, 0, d) {
                let x = g.subrange(d.len() as int, g.len() as int);
                assert(g =~= w + seq!['-'] + x);
            }
            if exists|x: Seq<char>| g == w + seq!['-'] + x {
                let x = choose|x: Seq<char>| g == w + seq!['-'] + x;
                assert(g.subrange(0, d.len() as int) =~= d);
            }
        },
        _ => {},
    }
}

/// Law: what a selector of one part asks of a node other than the root: `*` matches any
/// node; a type, an element of that name; a class, an element with that class; an id, an
/// element whose `id` attribute is that value (an element without one counts as having the
/// empty id); pseudo classes and elements match nothing. No selector matches the root.
pub proof fn law_simple_selectors(doc: Seq<NodeView>, i: int, p: PartView, parts: Seq<PartView>)
    requires
        0 <= i < doc.len(),
    ensures
        i > 0 && p.type_ == CssSelectorType::Universal ==> selector_matches(doc, i, seq![p]) == Some(true),
        i > 0 && p.type_ == CssSelectorType::Type ==> selector_matches(doc, i, seq![p]) == Some(
            doc[i].element matches Some(e) && e.name == p.value,
        ),
        i > 0 && p.type_ == CssSelectorType::Class ==> selector_matches(doc, i, seq![p]) == Some(
            doc[i].element matches Some(e) && e.classes.contains(p.value),
        ),
        i > 0 && p.type_ == CssSelectorType::Id ==> selector_matches(doc, i, seq![p]) == Some(
            doc[i].element matches Some(e) && (attribute_of(e.attributes, "id"@) == Some(p.value)
                || (attribute_of(e.attributes, "id"@) is None && p.value.len() == 0)),
        ),
        i > 0 && (p.type_ == CssSelectorType::PseudoClass || p.type_ == CssSelectorType::PseudoElement)
            ==> selector_matches(doc, i, seq![p]) == Some(false),
        parts.len() > 0 ==> selector_matches(doc, 0, parts) == Some(false),
{
    assert(seq![p].reverse() =~= seq![p]);
    assert(seq![p].drop_first() =~= Seq::<PartView>::empty());
    if i > 0 {
        let up = parent_of(doc, i);
        assert(selector_loop(doc, up, Seq::<PartView>::empty()) == Some((true, Seq::<PartView>::empty())));
        assert(selector_from(doc, i, seq![p]) == selector_loop(doc, Some(i), seq![p]));
        if p.value.len() == 0 {
            assert(p.value =~= Seq::<char>::empty());
        }
    }
    if parts.len() > 0 {
        assert(parts.reverse().len() > 0);
    }
}

/// The node is an element with that name.
pub open spec fn is_element_named(n: NodeView, name: Seq<char>) -> bool {
    n.element matches Some(e) && e.name == name
}

/// Law: in a well-formed document, `a > b` (two type parts around the child combinator)
/// matches a node other than the root exactly when the node is a `b` element and its parent
/// is an `a` element other than the root.
pub proof fn law_child_combinator(doc: Seq<NodeView>, i: int, a: PartView, gt: PartView, b: PartView)
    requires
        doc_wf(doc),
        0 < i < doc.len(),
        a.type_ == CssSelectorType::Type,
        b.type_ == CssSelectorType::Type,
        gt.type_ == CssSelectorType::Combinator,
        gt.value == ">"@,
    ensures
        selector_matches(doc, i, seq![a, gt, b]) == Some(
            is_element_named(doc[i], b.value) && match doc[i].parent {
                Some(q) => 0 < q < doc.len() && is_element_named(doc[q], a.value),
                None => false,
            },
        ),
{
    reveal_strlit(">");
    reveal_strlit(" ");
    assert(">"@ != " "@) by {
        assert(">"@[0] != " "@[0]);
    }
    lemma_parent_of(doc, i);
    let parts = seq![a, gt, b].reverse();
    assert(parts =~= seq![b, gt, a]);
    let rest = seq![gt, a];
    assert(parts.drop_first() =~= rest);
    assert(rest.drop_first() =~= seq![a]);
    assert(seq![a].drop_first() =~= Seq::<PartView>::empty());
    let up = parent_of(doc, i);
    assert(selector_from(doc, i, parts) == selector_loop(doc, Some(i), parts));
    if is_element_named(doc[i], b.value) {
        assert(selector_loop(doc, Some(i), parts) == selector_loop(doc, up, rest));
        match up {
            None => {},
            Some(q) => {
                assert(selector_from(doc, q, seq![a]) == selector_loop(doc, Some(q), seq![a]));
                if q > 0 {
                    let upq = parent_of(doc, q);
                    assert(selector_loop(doc, upq, Seq::<PartView>::empty()) == Some((true, Seq::<PartView>::empty())));
                }
            },
        }
    }
}

// ---------------------------------------------------------------------------------------
// Executable matching.

/// `str::to_lowercase`: the string with every character mapped to its Unicode lower case.
#[verifier::external_body]
fn to_lowercase(s: &str) -> (r: String)
    ensures
        r@ == lowercase(s@),
{
    s.to_lowercase()
}

/// The value of the first attribute with the given name.
pub(crate) fn attribute_value(attrs: &Vec<(String, String)>, name: &str) -> (r: Option<String>)
    ensures
        match r {
            Some(v) => attribute_of(pairs_seq(attrs@), name@) == Some(v@),
            None => attribute_of(pairs_seq(attrs@), name@) is None,
        },
{
    let ghost av = pairs_seq(attrs@);
    let wanted = chars_of(name);
    let mut i: usize = 0;
    assert(av.skip(0) =~= av);
    while i < attrs.len()
        invariant
            i <= attrs.len(),
            wanted@ == name@,
            av == pairs_seq(attrs@),
            attribute_of(av, name@) == attribute_of(av.skip(i as int), name@),
        decreases attrs.len() - i,
    {
        assert(av.skip(i as int)[0] == av[i as int]);
        assert(av.skip(i as int).drop_first() =~= av.skip(i + 1));
        if chars_eq(&chars_of(attrs[i].0.as_str()), &wanted) {
            return Some(attrs[i].1.clone());
        }
        i += 1;
    }
    None
}

/// Whether one of the classes is `class`.
fn has_class(classes: &Vec<String>, class: &String) -> (r: bool)
    ensures
        r == strings_seq(classes@).contains(class@),
{
    let mut i: usize = 0;
    while i < classes.len()
        invariant
            i <= classes.len(),
            forall|j: int| 0 <= j < i ==> classes@[j]@ != class@,
        decreases classes.len() - i,
    {
        if string_eq(&classes[i], class) {
            assert(strings_seq(classes@)[i as int] == class@);
            return true;
        }
        i += 1;
    }
    assert forall|j: int| 0 <= j < classes@.len() implies #[trigger] strings_seq(classes@)[j] != class@ by {
        assert(strings_seq(classes@)[j] == classes@[j]@);
    }
    false
}

/// Whether one of the white-space separated words of `s` is `w`.
fn has_word(s: &Vec<char>, w: &Vec<char>) -> (r: bool)
    ensures
        r == words_from(s@, 0, None).contains(w@),
{
    let mut found = false;
    let mut start: Option<usize> = None;
    let mut p: usize = 0;
    let ghost seen: Seq<Seq<char>> = Seq::empty();
    while p < s.len()
        invariant
            p <= s.len(),
            start matches Some(b) ==> b < p,
            words_from(s@, 0, None) == seen + words_from(s@, p as int, match start { Some(b) => Some(b as int), None => None }),
            found == seen.contains(w@),
        decreases s.len() - p,
    {
        if is_whitespace(s[p]) {
            match start {
                Some(b) => {
                    let word = sub_chars(s, b, p);
                    proof {
                        assert((seen + seq![s@.subrange(b as int, p as int)]) + words_from(s@, p + 1, None) =~= seen + (seq![s@.subrange(b as int, p as int)] + words_from(s@, p + 1, None)));
                        lemma_contains_push(seen, s@.subrange(b as int, p as int), w@);
                        seen = seen.push(s@.subrange(b as int, p as int));
                    }
                    found = found || chars_eq(&word, w);
                },
                None => {},
            }
            start = None;
        } else {
            if start.is_none() {
                start = Some(p);
            }
        }
        p += 1;
    }
    match start {
        Some(b) => {
            let word = sub_chars(s, b, s.len());
            proof {
                lemma_contains_push(seen, s@.subrange(b as int, s@.len() as int), w@);
                assert(seen + seq![s@.subrange(b as int, s@.len() as int)] =~= seen.push(s@.subrange(b as int, s@.len() as int)));
            }
            found || chars_eq(&word, w)
        },
        None => {
            assert(seen + Seq::<Seq<char>>::empty() =~= seen);
            found
        },
    }
}

/// What a sequence holds after a push.
proof fn lemma_contains_push(a: Seq<Seq<char>>, x: Seq<char>, w: Seq<char>)
    ensures
        a.push(x).contains(w) == (a.contains(w) || x == w),
{
    if a.push(x).contains(w) {
        let k = choose|k: int| 0 <= k < a.push(x).len() && a.push(x)[k] == w;
        if k < a.len() {
            assert(a[k] == w);
        }
    }
    if a.contains(w) {
        let k = choose|k: int| 0 <= k < a.len() && a[k] == w;
        assert(a.push(x)[k] == w);
    }
    if x == w {
        assert(a.push(x)[a.len() as int] == w);
    }
}

/// Compares an attribute value with the value of an attribute selector part.
fn attribute_matches(part: &CssSelectorPart, got: String) -> (r: bool)
    ensures
        r == attribute_compare(part@, got@),
{
    let flags = chars_of(part.flags.as_str());
    let insensitive = flags.len() == 1 && (flags[0] == 'i' || flags[0] == 'I');
    let (wanted, got) = if insensitive {
        (to_lowercase(part.value.as_str()), to_lowercase(got.as_str()))
    } else {
        (part.value.clone(), got)
    };
    let w = chars_of(wanted.as_str());
    let g = chars_of(got.as_str());
    match part.matcher {
        MatcherType::Present => true,
        MatcherType::Equals => chars_eq(&w, &g),
        MatcherType::Includes => has_word(&w, &g),
        MatcherType::DashMatch => {
            let mut dashed = w.clone();
            dashed.push('-');
            chars_eq(&g, &w) || tag(&g, 0, &dashed).is_some()
        },
        MatcherType::PrefixMatch => tag(&g, 0, &w).is_some(),
        MatcherType::SuffixMatch => w.len() <= g.len() && tag(&g, g.len() - w.len(), &w).is_some(),
        MatcherType::SubstringMatch => find(&g, 0, &w).is_some(),
    }
}

/// Returns true when the node matches the selector parts (in reverse order, the subject
/// first), going up through its ancestors; the parts that were used up are removed.
pub fn match_selector_part(document: &Document, node_id: usize, selector_parts: &mut Vec<CssSelectorPart>) -> (r: bool)
    requires
        doc_wf(document@),
        node_id < document.nodes.len(),
        selector_from(document@, node_id as int, parts_view(old(selector_parts)@)) is Some,
    ensures
        selector_from(document@, node_id as int, parts_view(old(selector_parts)@)) == Some((r, parts_view(final(selector_parts)@))),
        final(selector_parts)@.len() <= old(selector_parts)@.len(),
    decreases old(selector_parts)@.len(), node_rank(document@, Some(node_id as int)), 1int,
{
    let ghost doc = document@;
    let ghost start = selector_from(doc, node_id as int, parts_view(selector_parts@));
    let mut current: Option<usize> = Some(node_id);
    loop
        invariant
            doc == document@,
            doc_wf(doc),
            doc.len() == document.nodes.len(),
            start == selector_loop(doc, match current { Some(i) => Some(i as int), None => None }, parts_view(selector_parts@)),
            start is Some,
            start == selector_from(doc, node_id as int, parts_view(old(selector_parts)@)),
            selector_parts@.len() <= old(selector_parts)@.len(),
            current matches Some(i) ==> i < document.nodes.len(),
        decreases selector_parts@.len(), node_rank(doc, match current { Some(i) => Some(i as int), None => None }),
    {
        if selector_parts.len() == 0 {
            return true;
        }
        let i = match current {
            None => {
                return false;
            },
            Some(i) => i,
        };
        if i == 0 {
            return false;
        }
        let ghost pv = parts_view(selector_parts@);
        let node = &document.nodes[i];
        assert(doc[i as int] == node_view(*node));
        let part = selector_parts.remove(0);
        assert(parts_view(selector_parts@) =~= pv.drop_first());
        assert(pv[0] == part@);
        let up: Option<usize> = match node.parent {
            Some(p) => if p < document.nodes.len() {
                Some(p)
            } else {
                None
            },
            None => None,
        };
        proof {
            lemma_doc_rank(doc);
            assert(parent_of(doc, i as int) == match up { Some(p) => Some(p as int), None => None::<int> });
        }
        match part.type_ {
            CssSelectorType::Universal => {},
            CssSelectorType::Type => match &node.element {
                Some(e) => if !string_eq(&part.value, &e.name) {
                    return false;
                },
                None => {
                    return false;
                },
            },
            CssSelectorType::Class => match &node.element {
                Some(e) => if !has_class(&e.classes, &part.value) {
                    return false;
                },
                None => {
                    return false;
                },
            },
            CssSelectorType::Id => match &node.element {
                Some(e) => {
                    let id = match attribute_value(&e.attributes, "id") {
                        Some(v) => v,
                        None => String::new(),
                    };
                    if !string_eq(&id, &part.value) {
                        return false;
                    }
                },
                None => {
                    return false;
                },
            },
            CssSelectorType::Attribute => match &node.element {
                Some(e) => match attribute_value(&e.attributes, part.name.as_str()) {
                    Some(v) => if !attribute_matches(&part, v) {
                        return false;
                    },
                    None => {
                        return false;
                    },
                },
                None => {
                    return false;
                },
            },
            CssSelectorType::PseudoClass => {
                return false;
            },
            CssSelectorType::PseudoElement => {
                return false;
            },
            CssSelectorType::Combinator => {
                let v = chars_of(part.value.as_str());
                if chars_eq(&v, &chars_of(" ")) {
                    let matched = match_selector_part(document, i, selector_parts);
                    if !matched {
                        let ghost left = selector_parts@;
                        selector_parts.insert(0, part);
                        assert(parts_view(selector_parts@) =~= seq![pv[0]] + parts_view(left));
                    }
                } else if chars_eq(&v, &chars_of(">")) {
                    if !match_selector_part(document, i, selector_parts) {
                        return false;
                    }
                } else if chars_eq(&v, &chars_of("+")) || chars_eq(&v, &chars_of("~")) {
                } else {
                    proof { assert(false); }
                    return false;
                }
            },
        }
        current = up;
    }
}

/// Matches a complete selector (all parts) against the given node.
pub fn match_selector(document: &Document, node_id: usize, selector: &CssSelector) -> (r: bool)
    requires
        doc_wf(document@),
        node_id < document.nodes.len(),
        selector_matches(document@, node_id as int, parts_view(selector.parts@)) is Some,
    ensures
        selector_matches(document@, node_id as int, parts_view(selector.parts@)) == Some(r),
{
    let mut parts: Vec<CssSelectorPart> = Vec::new();
    let mut k = selector.parts.len();
    while k > 0
        invariant
            k <= selector.parts.len(),
            parts@.len() == selector.parts.len() - k,
            parts_view(parts@) == parts_view(selector.parts@).reverse().take((selector.parts.len() - k) as int),
        decreases k,
    {
        k -= 1;
        let p = &selector.parts[k];
        let copy = CssSelectorPart { type_: p.type_, value: p.value.clone(), name: p.name.clone(), flags: p.flags.clone(), matcher: p.matcher };
        let ghost old_parts = parts@;
        parts.push(copy);
        proof {
            let n = selector.parts.len() as int;
            let rv = parts_view(selector.parts@).reverse();
            assert(copy@ == selector.parts@[k as int]@);
            assert(rv[n - 1 - k] == parts_view(selector.parts@)[k as int]);
            assert forall|j: int| 0 <= j < parts@.len() implies #[trigger] parts_view(parts@)[j] == rv.take(n - k)[j] by {
                if j < old_parts.len() {
                    assert(parts@[j] == old_parts[j]);
                    assert(parts_view(old_parts)[j] == rv.take(n - k - 1)[j]);
                } else {
                    assert(parts@[j] == copy);
                }
            }
            assert(parts_view(parts@) =~= rv.take(n - k));
        }
    }
    assert(parts_view(selector.parts@).reverse().take(selector.parts.len() as int) =~= parts_view(selector.parts@).reverse());
    match_selector_part(document, node_id, &mut parts)
}

} // verus!
