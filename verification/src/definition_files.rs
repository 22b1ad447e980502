//! Definitions as the definition files list them. Each file is a list of entries (JSON
//! objects); whoever reads a file hands over its entries as plain values, and this module
//! compiles their syntax and collects them by name, a later entry replacing an earlier one
//! of the same name.
use vstd::prelude::*;
use crate::css_value::CssValue;
use crate::property_definitions::{
    copy_strings, insert_entry, lemma_props_view_insert, lemma_syntax_defs_view_insert, named, props_view, syntax_defs_view,
    DefinitionsView, PropertyDefinition, PropertyView, SyntaxDefinition,
};
use crate::property_definitions::{lemma_index_of_key_keys, CssDefinitions};
use crate::shorthands::{
    found_shorthands, index_of_key, last_assigned, same_except_shorthands, shorthands_opt_view, shorthands_within,
    spec_insert, ShorthandsView,
};
use crate::syntax::{compile_result, strings_view, ComponentView, Compiled, CssSyntax};
use crate::text::{chars_of, string_of};

verus! {

/// A field of an entry that holds one string, a list of strings, or something else.
pub enum Strings {
    List(Vec<String>),
    Single(String),
    Other,
}

/// The strings a field stands for: the list, the single string, or none at all.
pub open spec fn strings_of(s: Strings) -> Seq<Seq<char>> {
    match s {
        Strings::List(v) => strings_view(v@),
        Strings::Single(x) => seq![x@],
        Strings::Other => Seq::empty(),
    }
}

/// The strings a field stands for.
pub fn strings_value(s: &Strings) -> (r: Vec<String>)
    ensures
        strings_view(r@) == strings_of(*s),
{
    match s {
        Strings::List(v) => copy_strings(v),
        Strings::Single(x) => {
            let r = vec![x.clone()];
            assert(strings_view(r@) =~= seq![x@]);
            r
        },
        Strings::Other => {
            let r: Vec<String> = Vec::new();
            assert(strings_view(r@) =~= Seq::<Seq<char>>::empty());
            r
        },
    }
}

/// A property as the definitions file lists it: its name, the source of its syntax, its
/// longhands (`computed`), its initial value when the file gives one that could be read,
/// and whether it is inherited.
pub struct PropertyEntry {
    pub name: String,
    pub syntax: String,
    pub computed: Strings,
    pub initial_value: Option<CssValue>,
    pub inherited: bool,
}

/// A named syntax as the definitions file lists it: the name as written in the file
/// (quoted, and in angle brackets for a type, as in `"<length>"`) and the source of the
/// syntax.
pub struct SyntaxEntry {
    pub name: String,
    pub syntax: String,
}

/// The source compiles to a syntax tree.
pub open spec fn compiles(src: Seq<char>) -> bool {
    compile_result(src) is Tree
}

/// The components that a source compiles to (none when it does not compile).
pub open spec fn compiled_tree(src: Seq<char>) -> Seq<ComponentView> {
    match compile_result(src) {
        Compiled::Tree(cs) => cs,
        Compiled::Fails(_) => Seq::empty(),
    }
}

/// The definition that a property entry gives: not resolved, with no longhands indexed.
pub open spec fn entry_property(e: PropertyEntry) -> PropertyView {
    PropertyView {
        name: e.name@,
        computed: strings_of(e.computed),
        syntax: compiled_tree(e.syntax@),
        inherited: e.inherited,
        initial_value: match e.initial_value {
            Some(v) => Some(v@),
            None => None,
        },
        resolved: false,
        shorthands: None,
    }
}

/// The properties of a definitions file, by name.
pub open spec fn property_file(s: Seq<PropertyEntry>) -> Seq<(Seq<char>, PropertyView)>
    decreases s.len(),
{
    if s.len() == 0 {
        Seq::empty()
    } else {
        spec_insert(property_file(s.drop_last()), s.last().name@, entry_property(s.last()))
    }
}

/// A name without the quotes and angle brackets around it: a leading `"`, then a leading
/// `<`, then a trailing `"`, then a trailing `>` are taken off, each where it is there.
pub open spec fn strip_name(s: Seq<char>) -> Seq<char> {
    let a = if s.len() > 0 && s[0] == '"' {
        s.skip(1)
    } else {
        s
    };
    let b = if a.len() > 0 && a[0] == '<' {
        a.skip(1)
    } else {
        a
    };
    let c = if b.len() > 0 && b.last() == '"' {
        b.drop_last()
    } else {
        b
    };
    if c.len() > 0 && c.last() == '>' {
        c.drop_last()
    } else {
        c
    }
}

/// The named syntaxes of a definitions file, by name; an entry whose syntax does not
/// compile is left out.
pub open spec fn syntax_file(s: Seq<SyntaxEntry>) -> Seq<(Seq<char>, (Seq<ComponentView>, bool))>
    decreases s.len(),
{
    if s.len() == 0 {
        Seq::empty()
    } else {
        match compile_result(s.last().syntax@) {
            Compiled::Tree(cs) => spec_insert(syntax_file(s.drop_last()), strip_name(s.last().name@), (cs, false)),
            Compiled::Fails(_) => syntax_file(s.drop_last()),
        }
    }
}

/// The name of a syntax as written in the file, without its quotes and angle brackets.
pub fn definition_name(raw: &str) -> (r: String)
    ensures
        r@ == strip_name(raw@),
{
    let s = chars_of(raw);
    let mut start: usize = 0;
    let mut end: usize = s.len();
    if end > start && s[start] == '"' {
        start = start + 1;
    }
    if end > start && s[start] == '<' {
        start = start + 1;
    }
    if end > start && s[end - 1] == '"' {
        end = end - 1;
    }
    if end > start && s[end - 1] == '>' {
        end = end - 1;
    }
    let mut out: Vec<char> = Vec::new();
    let mut k: usize = start;
    while k < end
        invariant
            start <= k <= end <= s.len(),
            out@ == s@.subrange(start as int, k as int),
        decreases end - k,
    {
        out.push(s[k]);
        assert(out@ =~= s@.subrange(start as int, k + 1));
        k += 1;
    }
    proof {
        let t = raw@;
        let a = if t.len() > 0 && t[0] == '"' { t.skip(1) } else { t };
        let b = if a.len() > 0 && a[0] == '<' { a.skip(1) } else { a };
        let c = if b.len() > 0 && b.last() == '"' { b.drop_last() } else { b };
        let d = if c.len() > 0 && c.last() == '>' { c.drop_last() } else { c };
        assert(d == strip_name(t));
        assert(out@ =~= d);
    }
    string_of(out.as_slice())
}

/// Compiles the syntax of each entry of a syntax definitions file, and collects those that
/// compile by their name (see `syntax_file`); none is resolved yet.
pub fn parse_syntax_file(entries: &[SyntaxEntry]) -> (r: Vec<(String, SyntaxDefinition)>)
    ensures
        syntax_defs_view(named(r@)) == syntax_file(entries@),
{
    let mut r: Vec<(String, SyntaxDefinition)> = Vec::new();
    let mut i: usize = 0;
    assert(syntax_defs_view(named(r@)) =~= syntax_file(entries@.take(0)));
    while i < entries.len()
        invariant
            i <= entries.len(),
            syntax_defs_view(named(r@)) == syntax_file(entries@.take(i as int)),
        decreases entries.len() - i,
    {
        let e = &entries[i];
        assert(entries@.take(i + 1).drop_last() =~= entries@.take(i as int));
        assert(entries@.take(i + 1).last() == entries@[i as int]);
        match CssSyntax::new(e.syntax.as_str()).compile() {
            Ok(ast) => {
                let name = definition_name(e.name.as_str());
                let def = SyntaxDefinition { syntax: ast, resolved: false };
                let ghost before = named(r@);
                insert_entry(&mut r, name.as_str(), def);
                proof {
                    lemma_syntax_defs_view_insert(before, name@, def);
                }
            },
            Err(_) => {},
        }
        i += 1;
    }
    assert(entries@.take(i as int) =~= entries@);
    r
}

/// Compiles the syntax of each entry of a property definitions file and collects the
/// definitions by name (see `property_file`); none is resolved yet.
pub fn parse_property_file(entries: &[PropertyEntry]) -> (r: Vec<(String, PropertyDefinition)>)
    requires
        forall|i: int| 0 <= i < entries@.len() ==> compiles(#[trigger] entries@[i].syntax@),
    ensures
        props_view(named(r@)) == property_file(entries@),
{
    let mut r: Vec<(String, PropertyDefinition)> = Vec::new();
    let mut i: usize = 0;
    assert(props_view(named(r@)) =~= property_file(entries@.take(0)));
    while i < entries.len()
        invariant
            i <= entries.len(),
            forall|j: int| 0 <= j < entries@.len() ==> compiles(#[trigger] entries@[j].syntax@),
            props_view(named(r@)) == property_file(entries@.take(i as int)),
        decreases entries.len() - i,
    {
        let e = &entries[i];
        assert(entries@.take(i + 1).drop_last() =~= entries@.take(i as int));
        assert(entries@.take(i + 1).last() == entries@[i as int]);
        assert(compiles(entries@[i as int].syntax@));
        let syntax = match CssSyntax::new(e.syntax.as_str()).compile() {
            Ok(ast) => ast,
            Err(_) => {
                proof {
                    assert(false);
                }
                return r;
            },
        };
        let initial_value = match &e.initial_value {
            Some(v) => Some(v.copy()),
            None => None,
        };
        let def = PropertyDefinition {
            name: e.name.clone(),
            computed: strings_value(&e.computed),
            syntax,
            inherited: e.inherited,
            initial_value,
            resolved: false,
            shorthands: None,
        };
        let ghost before = named(r@);
        insert_entry(&mut r, e.name.as_str(), def);
        proof {
            lemma_props_view_insert(before, e.name@, def);
        }
        i += 1;
    }
    assert(entries@.take(i as int) =~= entries@);
    r
}

// ---------------------------------------------------------------------------------------
// Indexing the longhands of the properties of a file.

/// The syntax of each named syntax.
pub open spec fn syntax_components(s: Seq<(Seq<char>, (Seq<ComponentView>, bool))>) -> Seq<(Seq<char>, Seq<ComponentView>)> {
    s.map_values(|e: (Seq<char>, (Seq<ComponentView>, bool))| (e.0, e.1.0))
}

/// The syntax of each named property.
pub open spec fn property_components(s: Seq<(Seq<char>, PropertyView)>) -> Seq<(Seq<char>, Seq<ComponentView>)> {
    s.map_values(|e: (Seq<char>, PropertyView)| (e.0, e.1.syntax))
}

/// The longhands of shorthand `name` in `syntax`, given the syntaxes `sd` and the
/// properties `pd` that references lead to (see `shorthands_of`).
pub open spec fn shorthands_in(
    sd: Seq<(Seq<char>, Seq<ComponentView>)>,
    pd: Seq<(Seq<char>, Seq<ComponentView>)>,
    computed: Seq<Seq<char>>,
    syntax: Seq<ComponentView>,
    name: Seq<char>,
) -> Option<ShorthandsView> {
    shorthands_within(sd, pd, computed, syntax, name, choose|f: nat| shorthands_within(sd, pd, computed, syntax, name, f) is Some)->0
}

/// Finding the longhands of each of the properties `ps` ends.
pub open spec fn longhands_found(
    sd: Seq<(Seq<char>, Seq<ComponentView>)>,
    ps: Seq<(Seq<char>, PropertyView)>,
) -> bool {
    forall|i: int|
        0 <= i < ps.len() ==> exists|f: nat|
            shorthands_within(sd, property_components(ps), (#[trigger] ps[i]).1.computed, ps[i].1.syntax, ps[i].1.name, f) is Some
}

/// The longhands found for each of the first `n` properties of `ps` that has some, under
/// the property's own name, in order (see `found_shorthands`).
pub open spec fn found_in(
    sd: Seq<(Seq<char>, Seq<ComponentView>)>,
    ps: Seq<(Seq<char>, PropertyView)>,
    n: int,
) -> Seq<(Seq<char>, ShorthandsView)>
    decreases n,
{
    if n <= 0 {
        Seq::empty()
    } else {
        let r = found_in(sd, ps, n - 1);
        let p = ps[n - 1].1;
        match shorthands_in(sd, property_components(ps), p.computed, p.syntax, p.name) {
            Some(x) => r.push((p.name, x)),
            None => r,
        }
    }
}

/// The longhands that the last of the first `k` pairs naming entry `j` of `table` gives it.
pub open spec fn last_assigned_in(
    col: Seq<(Seq<char>, ShorthandsView)>,
    table: Seq<(Seq<char>, PropertyView)>,
    j: int,
    k: int,
) -> Option<ShorthandsView>
    decreases k,
{
    if k <= 0 {
        None
    } else if index_of_key(table, col[k - 1].0, 0) == Some(j) {
        Some(col[k - 1].1)
    } else {
        last_assigned_in(col, table, j, k - 1)
    }
}

/// The properties `ps` with the longhands found for them recorded (see `index_shorthands`).
pub open spec fn indexed(
    sd: Seq<(Seq<char>, Seq<ComponentView>)>,
    ps: Seq<(Seq<char>, PropertyView)>,
) -> Seq<(Seq<char>, PropertyView)> {
    let col = found_in(sd, ps, ps.len() as int);
    Seq::new(
        ps.len(),
        |j: int|
            (
                ps[j].0,
                PropertyView {
                    shorthands: match last_assigned_in(col, ps, j, col.len() as int) {
                        Some(x) => Some(x),
                        None => ps[j].1.shorthands,
                    },
                    ..ps[j].1
                },
            ),
    )
}

/// The longhands found over the definitions are those found over their values.
proof fn lemma_found_in(defs: &CssDefinitions, n: int)
    requires
        0 <= n <= defs.defined().len(),
    ensures
        found_shorthands(defs, n) == found_in(defs.syntax_views(), props_view(defs.defined()), n),
    decreases n,
{
    if n > 0 {
        lemma_found_in(defs, n - 1);
        let ps = props_view(defs.defined());
        assert(property_components(ps) =~= defs.property_views());
    }
}

/// Which pair names an entry depends on the keys only.
proof fn lemma_last_assigned_in(
    col: Seq<(Seq<char>, ShorthandsView)>,
    table: Seq<(Seq<char>, PropertyDefinition)>,
    j: int,
    k: int,
)
    requires
        0 <= k <= col.len(),
    ensures
        last_assigned(col, table, j, k) == last_assigned_in(col, props_view(table), j, k),
    decreases k,
{
    if k > 0 {
        lemma_index_of_key_keys(props_view(table), table, col[k - 1].0, 0);
        lemma_last_assigned_in(col, table, j, k - 1);
    }
}

/// Recording the longhands of each property, as `index_shorthands` does, gives `indexed`.
pub(crate) proof fn lemma_index_shorthands(before: &CssDefinitions, after: &CssDefinitions)
    requires
        after.defined().len() == before.defined().len(),
        forall|j: int|
            0 <= j < before.defined().len() ==> {
                let a = #[trigger] after.defined()[j];
                let b = before.defined()[j];
                &&& a.0 == b.0
                &&& same_except_shorthands(a.1, b.1)
                &&& shorthands_opt_view(a.1.shorthands) == match last_assigned(
                    found_shorthands(before, before.defined().len() as int),
                    before.defined(),
                    j,
                    found_shorthands(before, before.defined().len() as int).len() as int,
                ) {
                    Some(x) => Some(x),
                    None => shorthands_opt_view(b.1.shorthands),
                }
            },
    ensures
        props_view(after.defined()) == indexed(before.syntax_views(), props_view(before.defined())),
{
    let ps = props_view(before.defined());
    let n = before.defined().len() as int;
    lemma_found_in(before, n);
    let col = found_shorthands(before, n);
    assert forall|j: int| 0 <= j < n implies #[trigger] props_view(after.defined())[j] == indexed(before.syntax_views(), ps)[j] by {
        lemma_last_assigned_in(col, before.defined(), j, col.len() as int);
    }
    assert(props_view(after.defined()) =~= indexed(before.syntax_views(), ps));
}

/// The definitions of a syntax file and a property file, before resolving: the named
/// syntaxes, and the properties with their longhands recorded.
pub open spec fn files_view(syntax: Seq<SyntaxEntry>, properties: Seq<PropertyEntry>) -> DefinitionsView {
    DefinitionsView {
        resolved: Seq::empty(),
        properties: indexed(syntax_components(syntax_file(syntax)), property_file(properties)),
        syntax: syntax_file(syntax),
    }
}

} // verus!
