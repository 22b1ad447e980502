//! Expansion of shorthand properties (`margin`, `border`, ...) into the longhand properties
//! they set: which longhands a matched value belongs to, and the list of fixes collected.
use vstd::prelude::*;
use crate::cascade::{declaration_view, declarations_view, properties_view, property_values_view, CssOrigin, CssProperties, CssProperty, DeclarationProperty, DeclarationView, PropertyValuesView, Specificity};
use crate::css_value::{lemma_values_view, values_view, CssValue, CssValueView};
use crate::text::{chars_eq, chars_of};
use crate::property_definitions::{lemma_index_of_key_keys, lookup, tree_property_path, CssDefinitions, PropertyDefinition};
use crate::syntax::{lemma_components_view, strings_view, ComponentView, SyntaxComponent, SyntaxComponentMultiplier};
use crate::syntax_matcher::{view_multiplier, CssSyntaxTree};

verus! {

/// How the values matched for a shorthand are spread over its longhands.
#[derive(Debug, Clone, Copy, PartialEq, Eq, Structural)]
pub enum Multiplier {
    /// component has no multiplier
    NoMultiplier,
    NextProp,
    /// we can use everything that matches this component, and go to the next if we have more (e.g, border-radius)
    QuadMulti,
    DuoMulti,
    /// we need to extract values out of the matched components (e.g, background)
    OnlyMatched,
}

/// The longhands that the `multi`-th value sets, given the longhands completed so far.
pub open spec fn spec_get_names<T>(m: Multiplier, completed: Seq<T>, multi: usize) -> Option<Seq<T>> {
    match m {
        Multiplier::NextProp => if multi < completed.len() {
            Some(seq![completed[multi as int]])
        } else {
            None
        },
        Multiplier::DuoMulti => if multi == 0 {
            Some(completed)
        } else if 1 < completed.len() {
            Some(seq![completed[1]])
        } else {
            None
        },
        Multiplier::QuadMulti => if multi == 0 {
            Some(completed)
        } else if multi == 1 {
            if 3 <= completed.len() {
                Some(completed.subrange(1, 3))
            } else {
                None
            }
        } else if multi == 2 {
            if 0 < completed.len() {
                Some(seq![completed[0]])
            } else {
                None
            }
        } else if multi == 3 {
            if 1 < completed.len() {
                Some(seq![completed[1]])
            } else {
                None
            }
        } else {
            None
        },
        _ => None,
    }
}

/// The view of an optional vector.
pub open spec fn opt_vec_view<T>(v: Option<Vec<T>>) -> Option<Seq<T>> {
    match v {
        Some(v) => Some(v@),
        None => None,
    }
}

impl Multiplier {
    /// The longhands that the `multi`-th value sets: with `QuadMulti` (top, right, bottom,
    /// left) the first value sets all four, the second right and bottom, the third top, the
    /// fourth right.
    pub fn get_names<'s>(self, completed: Vec<&'s str>, multi: usize) -> (r: Option<Vec<&'s str>>)
        ensures
            opt_vec_view(r) == spec_get_names(self, completed@, multi),
    {
        match self {
            Multiplier::NextProp => {
                if multi < completed.len() {
                    Some(vec![completed[multi]])
                } else {
                    None
                }
            },
            Multiplier::DuoMulti => {
                if multi == 0 {
                    return Some(completed);
                }
                if 1 < completed.len() {
                    Some(vec![completed[1]])
                } else {
                    None
                }
            },
            Multiplier::QuadMulti => {
                if multi == 0 {
                    Some(completed)
                } else if multi == 1 {
                    if 3 <= completed.len() {
                        let v = vec![completed[1], completed[2]];
                        assert(v@ =~= completed@.subrange(1, 3));
                        Some(v)
                    } else {
                        None
                    }
                } else if multi == 2 {
                    if 0 < completed.len() {
                        Some(vec![completed[0]])
                    } else {
                        None
                    }
                } else if multi == 3 {
                    if 1 < completed.len() {
                        Some(vec![completed[1]])
                    } else {
                        None
                    }
                } else {
                    None
                }
            },
            _ => None,
        }
    }
}

/// A longhand of a shorthand, and the path of component indices (into the shorthand's
/// syntax) at which its value is found.
#[derive(Debug, Clone)]
pub struct Shorthand {
    name: String,
    components: Vec<usize>,
}

/// The longhands of a shorthand property.
#[derive(Debug, Clone)]
pub struct Shorthands {
    multiplier: Multiplier,
    shorthands: Vec<Shorthand>,
    name: String,
}

/// A longhand being resolved: its name and the part of its component path still to walk.
#[derive(Debug, Clone, Copy)]
pub struct ResolveShorthand<'a> {
    pub name: &'a str,
    pub components: &'a [usize],
}

impl Shorthand {
    /// A longhand found at the given component path.
    pub fn new(name: String, components: Vec<usize>) -> (s: Self)
        ensures
            s.name() == name@,
            s.path() == components@,
    {
        Shorthand { name, components }
    }

    /// The name of the longhand.
    pub closed spec fn name(&self) -> Seq<char> {
        self.name@
    }

    /// The component path of the longhand.
    pub closed spec fn path(&self) -> Seq<usize> {
        self.components@
    }

    /// A resolver that starts at the beginning of the component path.
    pub fn resolver(&self) -> (r: ResolveShorthand<'_>)
        ensures
            r.name@ == self.name(),
            r.components@ == self.path(),
    {
        ResolveShorthand { name: self.name.as_str(), components: self.components.as_slice() }
    }
}

/// The outcome of stepping a longhand's path with component index `idx`: `None` when the
/// path goes elsewhere, `Some(None)` when the longhand is complete, `Some(Some(rest))` when
/// the path continues with `rest`.
pub open spec fn spec_step_complete(components: Seq<usize>, idx: usize) -> Option<Option<Seq<usize>>> {
    if components.len() == 0 {
        Some(None)
    } else if components[0] == idx {
        if components.len() == 1 {
            Some(None)
        } else {
            Some(Some(components.skip(1)))
        }
    } else {
        None
    }
}

/// The path-level view of a resolver step.
pub open spec fn step_view<'a>(r: Option<Option<ResolveShorthand<'a>>>) -> Option<Option<Seq<usize>>> {
    match r {
        Some(Some(s)) => Some(Some(s.components@)),
        Some(None) => Some(None),
        None => None,
    }
}

impl<'a> ResolveShorthand<'a> {
    /// Steps into component `idx` (see `spec_step_complete`); the name is kept.
    pub fn step_complete(&self, idx: usize) -> (r: Option<Option<ResolveShorthand<'a>>>)
        ensures
            step_view(r) == spec_step_complete(self.components@, idx),
            r matches Some(Some(s)) ==> s.name == self.name,
    {
        if self.components.len() == 0 {
            return Some(None);
        }
        if self.components[0] == idx {
            let (_, components) = self.components.split_at(1);
            assert(components@ =~= self.components@.skip(1));
            if components.len() == 0 {
                return Some(None);
            }
            return Some(Some(ResolveShorthand { name: self.name, components }));
        }
        None
    }
}

/// The first index at or after `i` whose entry has key `k`.
pub open spec fn index_of_key<T>(s: Seq<(Seq<char>, T)>, k: Seq<char>, i: int) -> Option<int>
    decreases s.len() - i,
{
    if i < 0 || i >= s.len() {
        None
    } else if s[i].0 == k {
        Some(i)
    } else {
        index_of_key(s, k, i + 1)
    }
}

/// `s` with the value under key `k` replaced by `v` (the first such entry), or with
/// `(k, v)` added at the end when no entry has key `k`.
pub open spec fn spec_insert<T>(s: Seq<(Seq<char>, T)>, k: Seq<char>, v: T) -> Seq<(Seq<char>, T)> {
    match index_of_key(s, k, 0) {
        Some(i) => s.update(i, (k, v)),
        None => s.push((k, v)),
    }
}

/// `b` holds clones of the elements of `a`, in order.
pub open spec fn clone_of<V: Clone>(a: Seq<V>, b: Seq<V>) -> bool {
    a.len() == b.len() && forall|i: int| 0 <= i < a.len() ==> cloned(#[trigger] a[i], b[i])
}

/// Longhand values collected while expanding shorthands, and for each multi-value
/// shorthand how many of its values have been handed out.
#[derive(Debug, Clone, PartialEq)]
pub struct FixList<V> {
    list: Vec<(String, Vec<V>)>,
    multipliers: Vec<(String, usize)>,
}

/// The (longhand, values) entries of a fix list.
pub open spec fn entries_view<V>(v: Seq<(String, Vec<V>)>) -> Seq<(Seq<char>, Seq<V>)> {
    v.map_values(|e: (String, Vec<V>)| (e.0@, e.1@))
}

/// The (shorthand, count) counters of a fix list.
pub open spec fn counters_view(v: Seq<(String, usize)>) -> Seq<(Seq<char>, usize)> {
    v.map_values(|e: (String, usize)| (e.0@, e.1))
}

impl<V> FixList<V> {
    /// The (longhand, values) entries, in order.
    pub closed spec fn entries(&self) -> Seq<(Seq<char>, Seq<V>)> {
        entries_view(self.list@)
    }

    /// The (shorthand, count) counters, in order.
    pub closed spec fn counters(&self) -> Seq<(Seq<char>, usize)> {
        counters_view(self.multipliers@)
    }

    /// An empty fix list.
    pub fn new() -> (f: Self)
        ensures
            f.entries() == Seq::<(Seq<char>, Seq<V>)>::empty(),
            f.counters() == Seq::<(Seq<char>, usize)>::empty(),
    {
        let f = FixList { list: Vec::new(), multipliers: Vec::new() };
        assert(entries_view(f.list@) =~= Seq::<(Seq<char>, Seq<V>)>::empty());
        assert(counters_view(f.multipliers@) =~= Seq::<(Seq<char>, usize)>::empty());
        f
    }

    /// Sets the values of longhand `name`: the first entry with that name is updated, or a
    /// new entry is added at the end.
    pub fn insert(&mut self, name: String, value: Vec<V>)
        ensures
            final(self).entries() == spec_insert(old(self).entries(), name@, value@),
            final(self).counters() == old(self).counters(),
    {
        let ghost old_entries = self.entries();
        let ghost old_counters = self.counters();
        let mut i: usize = 0;
        while i < self.list.len()
            invariant
                i <= self.list.len(),
                self.entries() == old_entries,
                self.counters() == old_counters,
                old_entries == old(self).entries(),
                old_counters == old(self).counters(),
                index_of_key(old_entries, name@, 0) == index_of_key(old_entries, name@, i as int),
            decreases self.list.len() - i,
        {
            assert(old_entries[i as int] == (self.list@[i as int].0@, self.list@[i as int].1@));
            if crate::text::string_eq(&self.list[i].0, &name) {
                let ghost k = self.list@[i as int].0;
                assert(index_of_key(old_entries, name@, i as int) == Some(i as int));
                self.list.set(i, (name, value));
                assert(entries_view(self.list@) =~= old_entries.update(i as int, (name@, value@)));
                return;
            }
            i += 1;
        }
        assert(index_of_key(old_entries, name@, i as int) is None);
        self.list.push((name, value));
        assert(entries_view(self.list@) =~= old_entries.push((name@, value@)));
    }

    /// The (longhand, values) entries, in order.
    pub fn list(&self) -> (r: &[(String, Vec<V>)])
        ensures
            entries_view(r@) == self.entries(),
    {
        self.list.as_slice()
    }

    /// The (shorthand, count) counters, in order.
    pub fn multipliers(&self) -> (r: &[(String, usize)])
        ensures
            counters_view(r@) == self.counters(),
    {
        self.multipliers.as_slice()
    }

    /// Adds the entries of `other` after those of `self` (the counters of `other` are dropped).
    pub fn append(&mut self, other: FixList<V>)
        ensures
            final(self).entries() == old(self).entries() + other.entries(),
            final(self).counters() == old(self).counters(),
    {
        let mut other = other;
        let ghost a = self.entries();
        let ghost b = other.entries();
        self.list.append(&mut other.list);
        assert(entries_view(self.list@) =~= a + b);
    }
}

impl<V> Default for FixList<V> {
    fn default() -> (f: Self)
        ensures
            f.entries() == Seq::<(Seq<char>, Seq<V>)>::empty(),
            f.counters() == Seq::<(Seq<char>, usize)>::empty(),
    {
        Self::new()
    }
}

/// The keys of a list of entries.
pub open spec fn keys<T>(s: Seq<(Seq<char>, T)>) -> Seq<Seq<char>> {
    s.map_values(|e: (Seq<char>, T)| e.0)
}

/// The keys after inserting each of `names` in turn (a name already present stays where it is).
pub open spec fn keys_after_inserts(ks: Seq<Seq<char>>, names: Seq<Seq<char>>) -> Seq<Seq<char>>
    decreases names.len(),
{
    if names.len() == 0 {
        ks
    } else {
        keys_after_inserts(
            if ks.contains(names[0]) { ks } else { ks.push(names[0]) },
            names.drop_first(),
        )
    }
}

/// Where `index_of_key` finds an entry it has that key; where it finds none, no entry from
/// `i` on has it.
pub proof fn lemma_index_of_key<T>(s: Seq<(Seq<char>, T)>, k: Seq<char>, i: int)
    requires
        0 <= i,
    ensures
        index_of_key(s, k, i) matches Some(j) ==> i <= j < s.len() && s[j].0 == k
            && forall|m: int| i <= m < j ==> s[m].0 != k,
        index_of_key(s, k, i) is None ==> forall|m: int| i <= m < s.len() ==> s[m].0 != k,
    decreases s.len() - i,
{
    if i < s.len() && s[i].0 != k {
        lemma_index_of_key(s, k, i + 1);
    }
}

/// How to take back what a step did to the counters of a fix list.
#[derive(Debug, Clone, Copy, PartialEq, Eq, Structural)]
pub enum StepUndo {
    /// The step changed no counter.
    Nothing,
    /// The step raised the counter at this index by one.
    Decrement(usize),
    /// The step added a counter at the end.
    Pop,
}

/// The counters before a step, given those after it.
pub open spec fn undo_counters(c: Seq<(Seq<char>, usize)>, u: StepUndo) -> Seq<(Seq<char>, usize)> {
    match u {
        StepUndo::Nothing => c,
        StepUndo::Decrement(j) => c.update(j as int, (c[j as int].0, (c[j as int].1 - 1) as usize)),
        StepUndo::Pop => c.drop_last(),
    }
}

/// The undo can be applied to these counters.
pub open spec fn undo_applies(c: Seq<(Seq<char>, usize)>, u: StepUndo) -> bool {
    match u {
        StepUndo::Nothing => true,
        StepUndo::Decrement(j) => j < c.len() && c[j as int].1 > 0,
        StepUndo::Pop => c.len() > 0,
    }
}

/// A finished step: the longhands that take the value just matched. Completing it stores
/// the value for them; abandoning it takes back the counter the step raised.
pub struct CompleteStep<'a> {
    name: Vec<&'a str>,
    undo: StepUndo,
}

/// The names of a list of longhands.
pub open spec fn names_view<'a>(v: Seq<&'a str>) -> Seq<Seq<char>> {
    v.map_values(|s: &'a str| s@)
}

impl<'a> CompleteStep<'a> {
    /// The longhands that take the value.
    pub closed spec fn names(&self) -> Seq<Seq<char>> {
        names_view(self.name@)
    }

    /// What abandoning the step takes back.
    pub closed spec fn undo(&self) -> StepUndo {
        self.undo
    }

    /// Stores a clone of `value` for each of the step's longhands, in order.
    pub fn complete<V: Clone>(self, fix_list: &mut FixList<V>, value: Vec<V>)
        ensures
            keys(final(fix_list).entries()) == keys_after_inserts(keys(old(fix_list).entries()), self.names()),
            forall|i: int| 0 <= i < final(fix_list).entries().len() ==> {
                let e = #[trigger] final(fix_list).entries()[i];
                if self.names().contains(e.0) && index_of_key(final(fix_list).entries(), e.0, 0) == Some(i) {
                    clone_of(value@, e.1)
                } else {
                    i < old(fix_list).entries().len() && e.1 == old(fix_list).entries()[i].1
                }
            },
            final(fix_list).counters() == old(fix_list).counters(),
    {
        let names = self.name;
        let ghost all = names_view(names@);
        let ghost start = fix_list.entries();
        let mut k: usize = 0;
        while k < names.len()
            invariant
                k <= names.len(),
                all == names_view(names@),
                start == old(fix_list).entries(),
                fix_list.counters() == old(fix_list).counters(),
                keys(fix_list.entries()) == keys_after_inserts(keys(start), all.take(k as int)),
                keys(start).len() <= fix_list.entries().len(),
                forall|i: int| 0 <= i < fix_list.entries().len() ==> {
                    let e = #[trigger] fix_list.entries()[i];
                    if all.take(k as int).contains(e.0) && index_of_key(fix_list.entries(), e.0, 0) == Some(i) {
                        clone_of(value@, e.1)
                    } else {
                        i < start.len() && e.1 == start[i].1
                    }
                },
            decreases names.len() - k,
        {
            let mut copy: Vec<V> = Vec::new();
            copy.extend_from_slice(value.as_slice());
            let n = names[k].to_owned();
            let ghost before = fix_list.entries();
            proof {
                lemma_index_of_key(before, n@, 0);
                lemma_keys_after_inserts_step(keys(start), all, k as int);
            }
            fix_list.insert(n, copy);
            assert(all.take(k + 1) =~= all.take(k as int).push(all[k as int]));
            assert(keys(fix_list.entries()) =~= (if keys(before).contains(n@) {
                keys(before)
            } else {
                keys(before).push(n@)
            })) by {
                match index_of_key(before, n@, 0) {
                    Some(j) => {
                        assert(keys(before)[j] == n@);
                    },
                    None => {
                        assert forall|m: int| 0 <= m < keys(before).len() implies keys(before)[m] != n@ by {
                            assert(before[m].0 != n@);
                        }
                    },
                }
            }
            assert(clone_of(value@, copy@));
            let ghost after = fix_list.entries();
            assert forall|i: int| 0 <= i < after.len() implies {
                let e = #[trigger] after[i];
                if all.take(k + 1).contains(e.0) && index_of_key(after, e.0, 0) == Some(i) {
                    clone_of(value@, e.1)
                } else {
                    i < start.len() && e.1 == start[i].1
                }
            } by {
                let e = after[i];
                proof_step_entry(before, n@, copy@, all.take(k as int), all[k as int], value@, start, i);
                assert(all.take(k + 1).contains(e.0) == (all.take(k as int).contains(e.0) || e.0 == n@)) by {
                    if all.take(k + 1).contains(e.0) && e.0 != n@ {
                        let m = choose|m: int| 0 <= m < k + 1 && #[trigger] all.take(k + 1)[m] == e.0;
                        assert(all.take(k as int)[m] == e.0);
                    }
                    if all.take(k as int).contains(e.0) {
                        let m = choose|m: int| 0 <= m < k && #[trigger] all.take(k as int)[m] == e.0;
                        assert(all.take(k + 1)[m] == e.0);
                    }
                    if e.0 == n@ {
                        assert(all.take(k + 1)[k as int] == n@);
                    }
                }
            }
            k += 1;
        }
        assert(all.take(k as int) =~= all);
    }

    /// Takes back the counter that the step raised (what dropping an unfinished step does).
    pub fn abandon<V>(self, fix_list: &mut FixList<V>)
        requires
            undo_applies(old(fix_list).counters(), self.undo()),
        ensures
            final(fix_list).counters() == undo_counters(old(fix_list).counters(), self.undo()),
            final(fix_list).entries() == old(fix_list).entries(),
    {
        match self.undo {
            StepUndo::Nothing => {},
            StepUndo::Decrement(j) => {
                let ghost c = fix_list.counters();
                let n = fix_list.multipliers[j].0.clone();
                let count = fix_list.multipliers[j].1;
                assert(c[j as int] == (n@, count));
                fix_list.multipliers.set(j, (n, count - 1));
                assert(counters_view(fix_list.multipliers@) =~= undo_counters(c, self.undo));
            },
            StepUndo::Pop => {
                let ghost c = fix_list.counters();
                fix_list.multipliers.pop();
                assert(counters_view(fix_list.multipliers@) =~= c.drop_last());
            },
        }
    }
}

/// A step that hands out a value, followed by abandoning that step, leaves the counters of
/// the fix list as they were before the step.
pub proof fn law_abandon_undoes_step(
    m: Multiplier,
    name: Seq<char>,
    p: Seq<(Seq<char>, Seq<usize>)>,
    idx: usize,
    counters: Seq<(Seq<char>, usize)>,
)
    requires
        counters.len() <= usize::MAX,
        forall|j: int| 0 <= j < counters.len() ==> #[trigger] counters[j].1 < usize::MAX,
    ensures
        spec_step(m, name, p, idx, counters).0 matches StepView::Complete(_, u) ==> {
            &&& undo_applies(spec_step(m, name, p, idx, counters).1, u)
            &&& undo_counters(spec_step(m, name, p, idx, counters).1, u) == counters
        },
{
    lemma_index_of_key(counters, name, 0);
    let after = spec_step(m, name, p, idx, counters).1;
    if let StepView::Complete(_, u) = spec_step(m, name, p, idx, counters).0 {
        match u {
            StepUndo::Decrement(j) => {
                let k = index_of_key(counters, name, 0).unwrap();
                assert(0 <= k < counters.len());
                assert(k == j);
                assert(after == counters.update(k, (counters[k].0, (counters[k].1 + 1) as usize)));
                assert(after[k].1 == counters[k].1 + 1);
                assert(undo_counters(after, u) =~= counters);
            },
            StepUndo::Pop => {
                assert(undo_counters(after, u) =~= counters);
            },
            StepUndo::Nothing => {},
        }
    }
}

proof fn lemma_keys_after_inserts_step(ks: Seq<Seq<char>>, names: Seq<Seq<char>>, k: int)
    requires
        0 <= k < names.len(),
    ensures
        keys_after_inserts(ks, names.take(k + 1)) == ({
            let kk = keys_after_inserts(ks, names.take(k));
            if kk.contains(names[k]) {
                kk
            } else {
                kk.push(names[k])
            }
        }),
    decreases k,
{
    if k > 0 {
        let ks1 = if ks.contains(names[0]) { ks } else { ks.push(names[0]) };
        assert(names.take(k + 1)[0] == names[0]);
        assert(names.take(k)[0] == names[0]);
        assert(names.take(k + 1).drop_first() =~= names.drop_first().take(k));
        assert(names.take(k).drop_first() =~= names.drop_first().take(k - 1));
        lemma_keys_after_inserts_step(ks1, names.drop_first(), k - 1);
        assert(names.drop_first()[k - 1] == names[k]);
    } else {
        let ks1 = if ks.contains(names[0]) { ks } else { ks.push(names[0]) };
        assert(names.take(1)[0] == names[0]);
        assert(names.take(1).drop_first() =~= Seq::<Seq<char>>::empty());
        assert(names.take(0) =~= Seq::<Seq<char>>::empty());
        assert(keys_after_inserts(ks1, Seq::<Seq<char>>::empty()) == ks1);
        assert(keys_after_inserts(ks, Seq::<Seq<char>>::empty()) == ks);
    }
}

/// `index_of_key` looks at keys only.
pub proof fn lemma_index_of_key_same_keys<T>(a: Seq<(Seq<char>, T)>, b: Seq<(Seq<char>, T)>, k: Seq<char>, i: int)
    requires
        keys(a) == keys(b),
    ensures
        index_of_key(a, k, i) == index_of_key(b, k, i),
    decreases a.len() - i,
{
    assert(a.len() == keys(a).len() && b.len() == keys(b).len());
    if 0 <= i < a.len() {
        assert(keys(a)[i] == a[i].0 && keys(b)[i] == b[i].0);
        lemma_index_of_key_same_keys(a, b, k, i + 1);
    }
}

/// `index_of_key` after an entry is added at the end.
pub proof fn lemma_index_of_key_push<T>(a: Seq<(Seq<char>, T)>, e: (Seq<char>, T), k: Seq<char>, i: int)
    requires
        0 <= i <= a.len(),
    ensures
        index_of_key(a.push(e), k, i) == match index_of_key(a, k, i) {
            Some(j) => Some(j),
            None => if e.0 == k { Some(a.len() as int) } else { None },
        },
    decreases a.len() - i,
{
    if i < a.len() {
        assert(a.push(e)[i] == a[i]);
        lemma_index_of_key_push(a, e, k, i + 1);
    } else {
        assert(a.push(e)[i] == e);
        assert(index_of_key(a.push(e), k, i + 1) is None);
    }
}

/// One insertion during `CompleteStep::complete` keeps the description of every entry.
proof fn proof_step_entry<V: Clone>(
    before: Seq<(Seq<char>, Seq<V>)>,
    n: Seq<char>,
    copy: Seq<V>,
    done: Seq<Seq<char>>,
    next: Seq<char>,
    value: Seq<V>,
    start: Seq<(Seq<char>, Seq<V>)>,
    i: int,
)
    requires
        next == n,
        clone_of(value, copy),
        forall|x: int| 0 <= x < before.len() ==> {
            let e = #[trigger] before[x];
            if done.contains(e.0) && index_of_key(before, e.0, 0) == Some(x) {
                clone_of(value, e.1)
            } else {
                x < start.len() && e.1 == start[x].1
            }
        },
        0 <= i < spec_insert(before, n, copy).len(),
    ensures
        ({
            let after = spec_insert(before, n, copy);
            let e = after[i];
            if (done.contains(e.0) || e.0 == n) && index_of_key(after, e.0, 0) == Some(i) {
                clone_of(value, e.1)
            } else {
                i < start.len() && e.1 == start[i].1
            }
        }),
{
    let after = spec_insert(before, n, copy);
    lemma_index_of_key(before, n, 0);
    match index_of_key(before, n, 0) {
        Some(j) => {
            assert(keys(after) =~= keys(before)) by {
                assert forall|x: int| 0 <= x < before.len() implies keys(after)[x] == keys(before)[x] by {
                    if x == j {
                        assert(before[j].0 == n);
                    }
                }
            }
            lemma_index_of_key_same_keys(after, before, after[i].0, 0);
            if i != j {
                assert(after[i] == before[i]);
                if after[i].0 == n {
                    lemma_index_of_key(before, n, 0);
                }
            }
        },
        None => {
            lemma_index_of_key_push(before, (n, copy), after[i].0, 0);
            if i < before.len() {
                assert(after[i] == before[i]);
                assert(after[i].0 != n);
            }
        },
    }
}

/// A shorthand being resolved: the longhands whose paths are still being walked.
#[derive(Debug)]
pub struct ShorthandResolver<'a> {
    name: &'a str,
    pub multiplier: Multiplier,
    shorthands: Vec<ResolveShorthand<'a>>,
}

/// The (name, remaining path) pairs of a list of longhands being resolved.
pub open spec fn paths_view<'a>(v: Seq<ResolveShorthand<'a>>) -> Seq<(Seq<char>, Seq<usize>)> {
    v.map_values(|s: ResolveShorthand<'a>| (s.name@, s.components@))
}

/// The (name, path) pairs of a list of longhands.
pub open spec fn shorthands_view(v: Seq<Shorthand>) -> Seq<(Seq<char>, Seq<usize>)> {
    v.map_values(|s: Shorthand| (s.name(), s.path()))
}

impl Shorthands {
    /// The longhands of shorthand `name`, spread over by `multiplier`.
    pub fn new(multiplier: Multiplier, shorthands: Vec<Shorthand>, name: String) -> (s: Self)
        ensures
            s.multiplier() == multiplier,
            s.longhands() == shorthands_view(shorthands@),
            s.name() == name@,
    {
        Shorthands { multiplier, shorthands, name }
    }

    /// How values are spread over the longhands.
    pub closed spec fn multiplier(&self) -> Multiplier {
        self.multiplier
    }

    /// The (name, path) pairs of the longhands.
    pub closed spec fn longhands(&self) -> Seq<(Seq<char>, Seq<usize>)> {
        shorthands_view(self.shorthands@)
    }

    /// The name of the shorthand.
    pub closed spec fn name(&self) -> Seq<char> {
        self.name@
    }

    /// A copy of the longhands.
    pub fn copy(&self) -> (r: Shorthands)
        ensures
            r.multiplier() == self.multiplier(),
            r.longhands() == self.longhands(),
            r.name() == self.name(),
    {
        let mut shorthands: Vec<Shorthand> = Vec::new();
        let mut i: usize = 0;
        while i < self.shorthands.len()
            invariant
                i <= self.shorthands.len(),
                shorthands_view(shorthands@) == shorthands_view(self.shorthands@).take(i as int),
            decreases self.shorthands.len() - i,
        {
            let sh = &self.shorthands[i];
            let mut path: Vec<usize> = Vec::new();
            let mut k: usize = 0;
            while k < sh.components.len()
                invariant
                    k <= sh.components.len(),
                    path@ == sh.components@.take(k as int),
                decreases sh.components.len() - k,
            {
                path.push(sh.components[k]);
                assert(path@ =~= sh.components@.take(k + 1));
                k += 1;
            }
            assert(sh.components@.take(k as int) =~= sh.components@);
            let ghost before = shorthands_view(shorthands@);
            shorthands.push(Shorthand { name: sh.name.clone(), components: path });
            assert(shorthands_view(shorthands@) =~= before.push((sh.name@, sh.components@)));
            assert(shorthands_view(self.shorthands@).take(i + 1) =~= shorthands_view(self.shorthands@).take(i as int).push(
                (sh.name@, sh.components@),
            ));
            i += 1;
        }
        assert(shorthands_view(self.shorthands@).take(i as int) =~= shorthands_view(self.shorthands@));
        Shorthands { multiplier: self.multiplier, shorthands, name: self.name.clone() }
    }

    /// A resolver at the start of every longhand's path.
    pub fn get_resolver(&self) -> (r: ShorthandResolver<'_>)
        ensures
            r.name() == self.name(),
            r.current_multiplier() == self.multiplier(),
            r.paths() == self.longhands(),
    {
        let mut shorthands: Vec<ResolveShorthand<'_>> = Vec::new();
        let mut i: usize = 0;
        while i < self.shorthands.len()
            invariant
                i <= self.shorthands.len(),
                paths_view(shorthands@) == shorthands_view(self.shorthands@).take(i as int),
            decreases self.shorthands.len() - i,
        {
            let ghost before = paths_view(shorthands@);
            let r = self.shorthands[i].resolver();
            assert(shorthands_view(self.shorthands@)[i as int] == (r.name@, r.components@));
            shorthands.push(r);
            assert(paths_view(shorthands@) =~= before.push((r.name@, r.components@)));
            assert(shorthands_view(self.shorthands@).take(i + 1) =~= shorthands_view(self.shorthands@).take(
                i as int,
            ).push((r.name@, r.components@)));
            i += 1;
        }
        assert(shorthands_view(self.shorthands@).take(i as int) =~= shorthands_view(self.shorthands@));
        ShorthandResolver { multiplier: self.multiplier, shorthands, name: self.name.as_str() }
    }
}

/// A copy of a resolver, if there is one: same shorthand, multiplier and paths.
pub fn copy_resolver<'a>(res: &Option<ShorthandResolver<'a>>) -> (r: Option<ShorthandResolver<'a>>)
    ensures
        r is Some <==> res is Some,
        r matches Some(c) ==> c.name() == res->0.name() && c.current_multiplier() == res->0.current_multiplier()
            && c.paths() == res->0.paths(),
{
    match res {
        Some(resolver) => {
            let mut shorthands: Vec<ResolveShorthand<'a>> = Vec::new();
            let mut i: usize = 0;
            while i < resolver.shorthands.len()
                invariant
                    i <= resolver.shorthands.len(),
                    shorthands@ == resolver.shorthands@.take(i as int),
                decreases resolver.shorthands.len() - i,
            {
                shorthands.push(resolver.shorthands[i]);
                assert(shorthands@ =~= resolver.shorthands@.take(i + 1));
                i += 1;
            }
            assert(resolver.shorthands@.take(i as int) =~= resolver.shorthands@);
            Some(ShorthandResolver { name: resolver.name, multiplier: resolver.multiplier, shorthands })
        },
        None => None,
    }
}

/// The multipliers that hand out values one by one.
pub open spec fn is_multi(m: Multiplier) -> bool {
    m is QuadMulti || m is DuoMulti || m is NextProp
}

/// The names of the longhands that stepping with `idx` completes, in order.
pub open spec fn completed_names(p: Seq<(Seq<char>, Seq<usize>)>, idx: usize) -> Seq<Seq<char>>
    decreases p.len(),
{
    if p.len() == 0 {
        Seq::empty()
    } else if spec_step_complete(p.last().1, idx) == Some(None::<Seq<usize>>) {
        completed_names(p.drop_last(), idx).push(p.last().0)
    } else {
        completed_names(p.drop_last(), idx)
    }
}

/// The longhands whose paths continue after stepping with `idx`, with what is left of their
/// paths, in order.
pub open spec fn stepped_paths(p: Seq<(Seq<char>, Seq<usize>)>, idx: usize) -> Seq<(Seq<char>, Seq<usize>)>
    decreases p.len(),
{
    if p.len() == 0 {
        Seq::empty()
    } else {
        match spec_step_complete(p.last().1, idx) {
            Some(Some(rest)) => stepped_paths(p.drop_last(), idx).push((p.last().0, rest)),
            _ => stepped_paths(p.drop_last(), idx),
        }
    }
}

/// The outcome of a resolver step.
pub enum StepView {
    /// Nothing more to resolve.
    Finished,
    /// Resolution goes on with these (name, path) pairs.
    Continue(Seq<(Seq<char>, Seq<usize>)>),
    /// These longhands take the value just matched; the undo takes back the counter change.
    Complete(Seq<Seq<char>>, StepUndo),
}

/// What a step with component index `idx` does, and the counters after it.
/// Multi-value shorthands first hand out the value to the longhands chosen by the
/// multiplier and by the shorthand's counter, which goes up by one; otherwise the first
/// completed longhand takes it; otherwise resolution goes on (for multi-value shorthands
/// the continuing paths are listed twice, as the resolver collects them in two passes).
pub open spec fn spec_step(
    m: Multiplier,
    name: Seq<char>,
    p: Seq<(Seq<char>, Seq<usize>)>,
    idx: usize,
    counters: Seq<(Seq<char>, usize)>,
) -> (StepView, Seq<(Seq<char>, usize)>) {
    let complete = completed_names(p, idx);
    if is_multi(m) && complete.len() > 0 {
        match index_of_key(counters, name, 0) {
            Some(j) => match spec_get_names(m, complete, counters[j].1) {
                None => (StepView::Finished, counters),
                Some(items) => (
                    StepView::Complete(items, StepUndo::Decrement(j as usize)),
                    counters.update(j, (counters[j].0, (counters[j].1 + 1) as usize)),
                ),
            },
            None => match spec_get_names(m, complete, 0) {
                None => (StepView::Finished, counters),
                Some(items) => (StepView::Complete(items, StepUndo::Pop), counters.push((name, 1usize))),
            },
        }
    } else if complete.len() > 0 {
        (StepView::Complete(seq![complete[0]], StepUndo::Nothing), counters)
    } else {
        let st = stepped_paths(p, idx);
        let all = if is_multi(m) { st + st } else { st };
        if all.len() == 0 {
            (StepView::Finished, counters)
        } else {
            (StepView::Continue(all), counters)
        }
    }
}

/// The outcome of an executed step.
pub open spec fn step_result_view<'a>(r: Result<Option<ShorthandResolver<'a>>, CompleteStep<'a>>) -> StepView {
    match r {
        Ok(None) => StepView::Finished,
        Ok(Some(s)) => StepView::Continue(s.paths()),
        Err(c) => StepView::Complete(c.names(), c.undo()),
    }
}

impl<'a> ShorthandResolver<'a> {
    /// The name of the shorthand being resolved.
    pub closed spec fn name(&self) -> Seq<char> {
        self.name@
    }

    /// How values are spread over the longhands.
    pub closed spec fn current_multiplier(&self) -> Multiplier {
        self.multiplier
    }

    /// The (name, remaining path) pairs of the longhands being resolved.
    pub closed spec fn paths(&self) -> Seq<(Seq<char>, Seq<usize>)> {
        paths_view(self.shorthands@)
    }

    /// Steps every longhand's path with component index `idx` (see `spec_step`).
    pub fn step<V>(&self, idx: usize, fix_list: &mut FixList<V>) -> (r: Result<Option<ShorthandResolver<'a>>, CompleteStep<'a>>)
        requires
            forall|j: int| 0 <= j < old(fix_list).counters().len() ==> #[trigger] old(fix_list).counters()[j].1 < usize::MAX,
        ensures
            (step_result_view(r), final(fix_list).counters()) == spec_step(
                self.current_multiplier(),
                self.name(),
                self.paths(),
                idx,
                old(fix_list).counters(),
            ),
            final(fix_list).entries() == old(fix_list).entries(),
            r matches Ok(Some(s)) ==> s.name() == self.name() && s.current_multiplier() == self.current_multiplier(),
            r matches Err(c) ==> undo_applies(final(fix_list).counters(), c.undo())
                && undo_counters(final(fix_list).counters(), c.undo()) == old(fix_list).counters(),
    {
        let ghost p = self.paths();
        let multi = match self.multiplier {
            Multiplier::QuadMulti | Multiplier::DuoMulti | Multiplier::NextProp => true,
            _ => false,
        };
        let mut shorthands: Vec<ResolveShorthand<'a>> = Vec::new();
        if multi {
            let mut complete: Vec<&'a str> = Vec::new();
            let mut i: usize = 0;
            while i < self.shorthands.len()
                invariant
                    i <= self.shorthands.len(),
                    p == paths_view(self.shorthands@),
                    paths_view(shorthands@) == stepped_paths(p.take(i as int), idx),
                    names_view(complete@) == completed_names(p.take(i as int), idx),
                decreases self.shorthands.len() - i,
            {
                let sh = self.shorthands[i];
                assert(p.take(i + 1).drop_last() =~= p.take(i as int));
                assert(p.take(i + 1).last() == (sh.name@, sh.components@));
                match sh.step_complete(idx) {
                    Some(Some(elem)) => {
                        let ghost before = paths_view(shorthands@);
                        shorthands.push(elem);
                        assert(paths_view(shorthands@) =~= before.push((elem.name@, elem.components@)));
                    },
                    Some(None) => {
                        let ghost before = names_view(complete@);
                        complete.push(sh.name);
                        assert(names_view(complete@) =~= before.push(sh.name@));
                    },
                    None => {},
                }
                i += 1;
            }
            assert(p.take(i as int) =~= p);
            if complete.len() > 0 {
                let ghost c = fix_list.counters();
                let ghost cn = names_view(complete@);
                let key = self.name.to_owned();
                let mut j: usize = 0;
                let mut found = false;
                while j < fix_list.multipliers.len()
                    invariant_except_break
                        !found,
                    invariant
                        j <= fix_list.multipliers.len(),
                        c == fix_list.counters(),
                        c == counters_view(fix_list.multipliers@),
                        key@ == self.name(),
                        index_of_key(c, key@, 0) == index_of_key(c, key@, j as int),
                    ensures
                        j <= fix_list.multipliers.len(),
                        index_of_key(c, key@, 0) == index_of_key(c, key@, j as int),
                        found ==> j < fix_list.multipliers.len() && c[j as int].0 == key@,
                        !found ==> j == fix_list.multipliers.len(),
                    decreases fix_list.multipliers.len() - j,
                {
                    assert(c[j as int] == (fix_list.multipliers@[j as int].0@, fix_list.multipliers@[j as int].1));
                    if crate::text::string_eq(&fix_list.multipliers[j].0, &key) {
                        found = true;
                        break;
                    }
                    j += 1;
                }
                if found {
                    assert(index_of_key(c, key@, j as int) == Some(j as int));
                    let count = fix_list.multipliers[j].1;
                    let ghost completev = complete@;
                    proof { lemma_names_view_get_names(self.multiplier, completev, count); }
                    let items = match self.multiplier.get_names(complete, count) {
                        Some(items) => items,
                        None => return Ok(None),
                    };
                    let n = fix_list.multipliers[j].0.clone();
                    fix_list.multipliers.set(j, (n, count + 1));
                    assert(counters_view(fix_list.multipliers@) =~= c.update(j as int, (c[j as int].0, (c[j as int].1 + 1) as usize)));
                    let step = CompleteStep { name: items, undo: StepUndo::Decrement(j) };
                    assert(undo_counters(fix_list.counters(), StepUndo::Decrement(j)) =~= c);
                    return Err(step);
                }
                assert(index_of_key(c, key@, j as int) is None);
                let ghost completev = complete@;
                proof { lemma_names_view_get_names(self.multiplier, completev, 0); }
                let items = match self.multiplier.get_names(complete, 0) {
                    Some(items) => items,
                    None => return Ok(None),
                };
                fix_list.multipliers.push((key, 1));
                assert(counters_view(fix_list.multipliers@) =~= c.push((self.name(), 1usize)));
                assert(fix_list.counters().drop_last() =~= c);
                return Err(CompleteStep { name: items, undo: StepUndo::Pop });
            }
        }
        let ghost first = paths_view(shorthands@);
        assert(first == if multi { stepped_paths(p, idx) } else { Seq::empty() });
        assert(p.take(0) =~= Seq::<(Seq<char>, Seq<usize>)>::empty());
        let mut i: usize = 0;
        while i < self.shorthands.len()
            invariant
                i <= self.shorthands.len(),
                p == paths_view(self.shorthands@),
                p == self.paths(),
                multi == is_multi(self.current_multiplier()),
                multi ==> completed_names(p, idx).len() == 0,
                first == if multi { stepped_paths(p, idx) } else { Seq::empty() },
                fix_list.counters() == old(fix_list).counters(),
                fix_list.entries() == old(fix_list).entries(),
                paths_view(shorthands@) == first + stepped_paths(p.take(i as int), idx),
                completed_names(p.take(i as int), idx).len() == 0,
            decreases self.shorthands.len() - i,
        {
            let sh = self.shorthands[i];
            assert(p.take(i + 1).drop_last() =~= p.take(i as int));
            assert(p.take(i + 1).last() == (sh.name@, sh.components@));
            match sh.step_complete(idx) {
                Some(Some(elem)) => {
                    let ghost before = paths_view(shorthands@);
                    shorthands.push(elem);
                    assert(paths_view(shorthands@) =~= before.push((elem.name@, elem.components@)));
                    assert(first + stepped_paths(p.take(i + 1), idx) =~= (first + stepped_paths(p.take(i as int), idx)).push((elem.name@, elem.components@)));
                },
                Some(None) => {
                    proof {
                        lemma_first_completed(p, idx, i as int);
                    }
                    let step = CompleteStep { name: vec![sh.name], undo: StepUndo::Nothing };
                    assert(step.names() =~= seq![completed_names(p, idx)[0]]);
                    return Err(step);
                },
                None => {},
            }
            i += 1;
        }
        assert(p.take(i as int) =~= p);
        assert(paths_view(shorthands@) =~= if multi { stepped_paths(p, idx) + stepped_paths(p, idx) } else { stepped_paths(p, idx) });
        if shorthands.len() == 0 {
            return Ok(None);
        }
        Ok(Some(ShorthandResolver { multiplier: self.multiplier, shorthands, name: self.name }))
    }
}

proof fn lemma_names_view_get_names<'a>(m: Multiplier, c: Seq<&'a str>, multi: usize)
    ensures
        spec_get_names(m, c, multi) matches Some(items) ==> spec_get_names(
            m,
            names_view(c),
            multi,
        ) == Some(names_view(items)),
        spec_get_names(m, c, multi) is None ==> spec_get_names(m, names_view(c), multi) is None,
{
    let n = names_view(c);
    match spec_get_names(m, c, multi) {
        Some(items) => {
            assert(names_view(items) =~= spec_get_names(m, n, multi).unwrap());
        },
        None => {},
    }
}

/// When the path at `i` completes and none before it does, its longhand is the first of
/// the completed ones.
proof fn lemma_first_completed(p: Seq<(Seq<char>, Seq<usize>)>, idx: usize, i: int)
    requires
        0 <= i < p.len(),
        completed_names(p.take(i), idx).len() == 0,
        spec_step_complete(p[i].1, idx) == Some(None::<Seq<usize>>),
    ensures
        completed_names(p, idx).len() > 0,
        completed_names(p, idx)[0] == p[i].0,
{
    lemma_completed_prefix(p, idx, i + 1);
    assert(p.take(i + 1).drop_last() =~= p.take(i));
    assert(completed_names(p.take(i + 1), idx) =~= seq![p[i].0]);
}

/// The completed names of a prefix are a prefix of the completed names.
proof fn lemma_completed_prefix(p: Seq<(Seq<char>, Seq<usize>)>, idx: usize, k: int)
    requires
        0 <= k <= p.len(),
    ensures
        completed_names(p.take(k), idx).len() <= completed_names(p, idx).len(),
        forall|j: int| 0 <= j < completed_names(p.take(k), idx).len() ==> completed_names(p.take(k), idx)[j]
            == #[trigger] completed_names(p, idx)[j],
    decreases p.len() - k,
{
    if k < p.len() {
        lemma_completed_prefix(p, idx, k + 1);
        assert(p.take(k + 1).drop_last() =~= p.take(k));
    } else {
        assert(p.take(k) =~= p);
    }
}

// ---------------------------------------------------------------------------------------
// Finding the longhands of a shorthand in its syntax.

/// A description of the longhands of a shorthand: how values are spread, the (longhand,
/// path) pairs, and the name of the shorthand.
pub struct ShorthandsView {
    pub multiplier: Multiplier,
    pub longhands: Seq<(Seq<char>, Seq<usize>)>,
    pub name: Seq<char>,
}

/// The description of some longhands.
pub open spec fn shorthands_desc(x: Shorthands) -> ShorthandsView {
    ShorthandsView { multiplier: x.multiplier(), longhands: x.longhands(), name: x.name() }
}

/// The description of some longhands, if any.
pub open spec fn shorthands_opt_view(s: Option<Shorthands>) -> Option<ShorthandsView> {
    match s {
        Some(x) => Some(shorthands_desc(x)),
        None => None,
    }
}

/// The multiplier for longhands that take the values in turn: two take them pairwise, four
/// in the order of the sides of a box, any other number one each.
pub open spec fn multiplier_for(n: nat) -> Multiplier {
    if n == 2 {
        Multiplier::DuoMulti
    } else if n == 4 {
        Multiplier::QuadMulti
    } else {
        Multiplier::NextProp
    }
}

/// The upper bound of a repeating multiplier (`{a, b}` or `#{a, b}`).
pub open spec fn repeat_bound(m: SyntaxComponentMultiplier) -> Option<nat> {
    match m {
        SyntaxComponentMultiplier::Between(_, b) => Some(b as nat),
        SyntaxComponentMultiplier::CommaSeparatedRepeat(_, b) => Some(b as nat),
        _ => None,
    }
}

/// Each longhand with an empty path.
pub open spec fn plain_longhands(computed: Seq<Seq<char>>) -> Seq<(Seq<char>, Seq<usize>)> {
    computed.map_values(|c: Seq<char>| (c, Seq::<usize>::empty()))
}

/// Each longhand with the path made of its own index.
pub open spec fn indexed_longhands(computed: Seq<Seq<char>>) -> Seq<(Seq<char>, Seq<usize>)> {
    computed.map(|i: int, c: Seq<char>| (c, seq![i as usize]))
}

/// The longhands named in the first component of `syntax`, with their paths, in order.
pub open spec fn found_longhands(syntax: Seq<ComponentView>, computed: Seq<Seq<char>>) -> Seq<(Seq<char>, Seq<usize>)>
    decreases computed.len(),
{
    if computed.len() == 0 {
        Seq::empty()
    } else {
        let r = found_longhands(syntax, computed.drop_last());
        match tree_property_path(syntax, computed.last()) {
            Some(p) => r.push((computed.last(), p)),
            None => r,
        }
    }
}

/// A description found through a definition, with no multiplier.
pub open spec fn without_multiplier(r: Option<Option<ShorthandsView>>) -> Option<Option<ShorthandsView>> {
    match r {
        Some(Some(x)) => Some(Some(ShorthandsView { multiplier: Multiplier::NoMultiplier, ..x })),
        other => other,
    }
}

/// The longhands of shorthand `name` (whose longhands are `computed`) found in `syntax`,
/// looking through the syntax definitions `sd` and property syntaxes `pd` that the syntax
/// refers to, at most `fuel` references deep. `None` when that is not deep enough;
/// `Some(None)` when nothing is found.
pub open spec fn shorthands_within(
    sd: Seq<(Seq<char>, Seq<ComponentView>)>,
    pd: Seq<(Seq<char>, Seq<ComponentView>)>,
    computed: Seq<Seq<char>>,
    syntax: Seq<ComponentView>,
    name: Seq<char>,
    fuel: nat,
) -> Option<Option<ShorthandsView>>
    decreases fuel,
{
    if computed.len() <= 1 || syntax.len() == 0 {
        Some(None)
    } else if repeat_bound(view_multiplier(syntax[0])) == Some(computed.len()) {
        Some(Some(ShorthandsView { multiplier: multiplier_for(computed.len()), longhands: plain_longhands(computed), name }))
    } else if found_longhands(syntax, computed).len() == computed.len() {
        Some(Some(ShorthandsView { multiplier: Multiplier::NoMultiplier, longhands: found_longhands(syntax, computed), name }))
    } else if syntax[0] is Group && syntax[0]->Group_0.len() == computed.len() {
        Some(Some(ShorthandsView { multiplier: Multiplier::NoMultiplier, longhands: indexed_longhands(computed), name }))
    } else if syntax.len() == 1 {
        match syntax[0] {
            ComponentView::TypeDefinition(d, _, _, _) => {
                let first = match lookup(sd, d) {
                    Some(s) => if fuel == 0 {
                        None
                    } else {
                        without_multiplier(shorthands_within(sd, pd, computed, s, name, (fuel - 1) as nat))
                    },
                    None => Some(None),
                };
                match first {
                    Some(None) => match lookup(pd, d) {
                        Some(s) => if fuel == 0 {
                            None
                        } else {
                            without_multiplier(shorthands_within(sd, pd, computed, s, name, (fuel - 1) as nat))
                        },
                        None => Some(None),
                    },
                    other => other,
                }
            },
            ComponentView::Property(p, _) => match lookup(pd, p) {
                Some(s) => if fuel == 0 {
                    None
                } else {
                    without_multiplier(shorthands_within(sd, pd, computed, s, name, (fuel - 1) as nat))
                },
                None => Some(None),
            },
            _ => Some(None),
        }
    } else {
        Some(None)
    }
}

/// Once the references are followed deep enough, following them deeper changes nothing.
proof fn lemma_shorthands_within_more_fuel(
    sd: Seq<(Seq<char>, Seq<ComponentView>)>,
    pd: Seq<(Seq<char>, Seq<ComponentView>)>,
    computed: Seq<Seq<char>>,
    syntax: Seq<ComponentView>,
    name: Seq<char>,
    f: nat,
    g: nat,
)
    requires
        f <= g,
        shorthands_within(sd, pd, computed, syntax, name, f) is Some,
    ensures
        shorthands_within(sd, pd, computed, syntax, name, g) == shorthands_within(sd, pd, computed, syntax, name, f),
    decreases f,
{
    if f > 0 && computed.len() > 1 && syntax.len() == 1 {
        match syntax[0] {
            ComponentView::TypeDefinition(d, _, _, _) => {
                if let Some(s) = lookup(sd, d) {
                    if shorthands_within(sd, pd, computed, s, name, (f - 1) as nat) is Some {
                        lemma_shorthands_within_more_fuel(sd, pd, computed, s, name, (f - 1) as nat, (g - 1) as nat);
                    }
                }
                if let Some(s) = lookup(pd, d) {
                    if shorthands_within(sd, pd, computed, s, name, (f - 1) as nat) is Some {
                        lemma_shorthands_within_more_fuel(sd, pd, computed, s, name, (f - 1) as nat, (g - 1) as nat);
                    }
                }
            },
            ComponentView::Property(p, _) => {
                if let Some(s) = lookup(pd, p) {
                    if shorthands_within(sd, pd, computed, s, name, (f - 1) as nat) is Some {
                        lemma_shorthands_within_more_fuel(sd, pd, computed, s, name, (f - 1) as nat, (g - 1) as nat);
                    }
                }
            },
            _ => {},
        }
    }
}

/// The longhands of shorthand `name` in `syntax`, following references as deep as needed.
/// (A syntax whose references go round in a circle has none: resolving it never ends.)
pub open spec fn resolves(
    defs: &CssDefinitions,
    computed: Seq<Seq<char>>,
    syntax: Seq<ComponentView>,
    name: Seq<char>,
) -> bool {
    exists|f: nat| shorthands_within(defs.syntax_views(), defs.property_views(), computed, syntax, name, f) is Some
}

/// The longhands of shorthand `name` in `syntax`, following the references as deep as
/// they go (when they end).
pub open spec fn shorthands_of(
    defs: &CssDefinitions,
    computed: Seq<Seq<char>>,
    syntax: Seq<ComponentView>,
    name: Seq<char>,
) -> Option<ShorthandsView> {
    shorthands_within(
        defs.syntax_views(),
        defs.property_views(),
        computed,
        syntax,
        name,
        choose|f: nat| shorthands_within(defs.syntax_views(), defs.property_views(), computed, syntax, name, f) is Some,
    )->0
}

/// The longhands found do not depend on the depth of references allowed, once it is enough.
pub proof fn lemma_shorthands_any_depth(
    defs: &CssDefinitions,
    computed: Seq<Seq<char>>,
    syntax: Seq<ComponentView>,
    name: Seq<char>,
    f: nat,
)
    requires
        shorthands_within(defs.syntax_views(), defs.property_views(), computed, syntax, name, f) is Some,
    ensures
        shorthands_of(defs, computed, syntax, name) == shorthands_within(
            defs.syntax_views(),
            defs.property_views(),
            computed,
            syntax,
            name,
            f,
        )->0,
{
    let sd = defs.syntax_views();
    let pd = defs.property_views();
    let c = choose|c: nat| shorthands_within(sd, pd, computed, syntax, name, c) is Some;
    if c <= f {
        lemma_shorthands_within_more_fuel(sd, pd, computed, syntax, name, c, f);
    } else {
        lemma_shorthands_within_more_fuel(sd, pd, computed, syntax, name, f, c);
    }
}

/// Finding the longhands of property `p` ends.
pub open spec fn resolves_property(defs: &CssDefinitions, p: PropertyDefinition) -> bool {
    resolves(defs, strings_view(p.computed@), p.syntax.view_components(), p.name@)
}

/// The longhands found for each of the first `n` defined properties that has some, under
/// the property's own name, in order.
pub open spec fn found_shorthands(defs: &CssDefinitions, n: int) -> Seq<(Seq<char>, ShorthandsView)>
    decreases n,
{
    if n <= 0 {
        Seq::empty()
    } else {
        let r = found_shorthands(defs, n - 1);
        let p = defs.defined()[n - 1].1;
        match shorthands_of(defs, strings_view(p.computed@), p.syntax.view_components(), p.name@) {
            Some(x) => r.push((p.name@, x)),
            None => r,
        }
    }
}

/// The (name, longhands) pairs of a list.
pub open spec fn found_view(v: Seq<(String, Shorthands)>) -> Seq<(Seq<char>, ShorthandsView)> {
    v.map_values(|e: (String, Shorthands)| (e.0@, shorthands_desc(e.1)))
}

/// The longhands that the last of the first `k` pairs naming entry `j` of `table` gives it.
pub open spec fn last_assigned(
    col: Seq<(Seq<char>, ShorthandsView)>,
    table: Seq<(Seq<char>, PropertyDefinition)>,
    j: int,
    k: int,
) -> Option<ShorthandsView>
    decreases k,
{
    if k <= 0 {
        None
    } else if index_of_key(table, col[k - 1].0, 0) == Some(j) {
        Some(col[k - 1].1)
    } else {
        last_assigned(col, table, j, k - 1)
    }
}

/// Two property definitions that differ at most in their shorthands.
pub open spec fn same_except_shorthands(a: PropertyDefinition, b: PropertyDefinition) -> bool {
    &&& a.name == b.name
    &&& a.computed == b.computed
    &&& a.syntax == b.syntax
    &&& a.inherited == b.inherited
    &&& a.initial_value == b.initial_value
    &&& a.resolved == b.resolved
}

impl CssDefinitions {
    /// The longhands of shorthand `name` (whose longhands are `computed`) in `syntax`: all
    /// of them at once when the first component repeats as often as there are longhands,
    /// each where the first component names it when it names them all, each in its own
    /// member when the first component is a group of as many members, or else what the
    /// definition or property that a lone component refers to gives.
    pub fn resolve_shorthands(&self, computed: &[String], syntax: &CssSyntaxTree, name: &str) -> (r: Option<Shorthands>)
        requires
            resolves(self, strings_view(computed@), syntax.view_components(), name@),
        ensures
            shorthands_opt_view(r) == shorthands_of(self, strings_view(computed@), syntax.view_components(), name@),
    {
        let ghost sd = self.syntax_views();
        let ghost pd = self.property_views();
        let ghost c = strings_view(computed@);
        let ghost f = choose|f: nat| shorthands_within(sd, pd, c, syntax.view_components(), name@, f) is Some;
        self.resolve_shorthands_within(computed, syntax, name, Ghost(f))
    }

    /// Records, for each defined property that is a shorthand, the longhands that
    /// `resolve_shorthands` finds for it (under the property's own name).
    pub fn index_shorthands(&mut self)
        requires
            forall|i: int|
                0 <= i < old(self).defined().len() ==> #[trigger] resolves_property(old(self), old(self).defined()[i].1),
        ensures
            final(self).defined().len() == old(self).defined().len(),
            forall|j: int|
                0 <= j < old(self).defined().len() ==> {
                    let a = #[trigger] final(self).defined()[j];
                    let b = old(self).defined()[j];
                    &&& a.0 == b.0
                    &&& same_except_shorthands(a.1, b.1)
                    &&& shorthands_opt_view(a.1.shorthands) == match last_assigned(
                        found_shorthands(old(self), old(self).defined().len() as int),
                        old(self).defined(),
                        j,
                        found_shorthands(old(self), old(self).defined().len() as int).len() as int,
                    ) {
                        Some(x) => Some(x),
                        None => shorthands_opt_view(b.1.shorthands),
                    }
                },
            final(self).resolved() == old(self).resolved(),
            final(self).syntaxes() == old(self).syntaxes(),
    {
        let ghost d0 = self.defined();
        let mut shorthands: Vec<(String, Shorthands)> = Vec::new();
        let mut i: usize = 0;
        let n = self.property_count();
        while i < n
            invariant
                i <= n,
                n == d0.len(),
                d0 == self.defined(),
                d0 == old(self).defined(),
                self.syntax_views() == old(self).syntax_views(),
                self.property_views() == old(self).property_views(),
                forall|k: int| 0 <= k < d0.len() ==> #[trigger] resolves_property(old(self), d0[k].1),
                found_view(shorthands@) == found_shorthands(old(self), i as int),
            decreases n - i,
        {
            let p = self.property_at(i);
            assert(resolves_property(old(self), d0[i as int].1));
            let syntax = self.resolve_shorthands(p.computed.as_slice(), &p.syntax, p.name.as_str());
            let ghost before = found_view(shorthands@);
            if let Some(sh) = syntax {
                shorthands.push((p.name.clone(), sh));
                assert(found_view(shorthands@) =~= before.push((p.name@, shorthands_desc(sh))));
            }
            i += 1;
        }
        let ghost col = found_view(shorthands@);
        assert(col.skip(0) =~= col);
        let mut k: usize = 0;
        let total = shorthands.len();
        while shorthands.len() > 0
            invariant
                k + shorthands.len() == total,
                total == col.len(),
                found_view(shorthands@) == col.skip(k as int),
                col == found_shorthands(old(self), d0.len() as int),
                d0 == old(self).defined(),
                self.defined().len() == d0.len(),
                self.resolved() == old(self).resolved(),
                self.syntaxes() == old(self).syntaxes(),
                forall|j: int|
                    0 <= j < d0.len() ==> {
                        let a = #[trigger] self.defined()[j];
                        let b = d0[j];
                        &&& a.0 == b.0
                        &&& same_except_shorthands(a.1, b.1)
                        &&& shorthands_opt_view(a.1.shorthands) == match last_assigned(col, d0, j, k as int) {
                            Some(x) => Some(x),
                            None => shorthands_opt_view(b.1.shorthands),
                        }
                    },
            decreases shorthands.len(),
        {
            let ghost old_sh = shorthands@;
            let ghost rest = found_view(shorthands@);
            let (name, sh) = shorthands.remove(0);
            assert(col[k as int] == rest[0]);
            assert(shorthands@ =~= old_sh.skip(1));
            assert(found_view(shorthands@) =~= col.skip(k + 1)) by {
                assert forall|m: int| 0 <= m < shorthands@.len() implies #[trigger] found_view(shorthands@)[m] == col.skip(k + 1)[m] by {
                    assert(shorthands@[m] == old_sh[m + 1]);
                    assert(rest[m + 1] == col.skip(k as int)[m + 1]);
                }
            }
            let ghost before = self.defined();
            proof {
                assert forall|j: int| 0 <= j < before.len() implies #[trigger] before[j].0 == d0[j].0 by {
                    assert(before[j].0 == d0[j].0);
                }
                lemma_index_of_key_keys(before, d0, name@, 0);
                lemma_index_of_key(d0, name@, 0);
            }
            self.set_property_shorthands(name.as_str(), sh);
            proof {
                let after = self.defined();
                assert forall|j: int| 0 <= j < d0.len() implies {
                    let a = #[trigger] after[j];
                    let b = d0[j];
                    &&& a.0 == b.0
                    &&& same_except_shorthands(a.1, b.1)
                    &&& shorthands_opt_view(a.1.shorthands) == match last_assigned(col, d0, j, k + 1) {
                        Some(x) => Some(x),
                        None => shorthands_opt_view(b.1.shorthands),
                    }
                } by {
                    assert(before[j].0 == d0[j].0);
                    assert(col[k as int] == (name@, shorthands_desc(sh)));
                }
            }
            k += 1;
        }
        assert(k == col.len());
    }

    fn resolve_shorthands_within(&self, computed: &[String], syntax: &CssSyntaxTree, name: &str, Ghost(fuel): Ghost<nat>) -> (r: Option<Shorthands>)
        requires
            shorthands_within(self.syntax_views(), self.property_views(), strings_view(computed@), syntax.view_components(), name@, fuel) is Some,
        ensures
            shorthands_opt_view(r) == shorthands_within(self.syntax_views(), self.property_views(), strings_view(computed@), syntax.view_components(), name@, fuel)->0,
        decreases fuel,
    {
        let ghost sd = self.syntax_views();
        let ghost pd = self.property_views();
        let ghost c = strings_view(computed@);
        let ghost sv = syntax.view_components();
        if computed.len() <= 1 || syntax.components.len() == 0 {
            return None;
        }
        proof {
            lemma_components_view(syntax.components@);
        }
        let first = &syntax.components[0];
        let bound = match first.get_multiplier() {
            SyntaxComponentMultiplier::Between(_, b) => Some(b),
            SyntaxComponentMultiplier::CommaSeparatedRepeat(_, b) => Some(b),
            _ => None,
        };
        assert(view_multiplier(sv[0]) == crate::syntax::multiplier_of(*first));
        if let Some(b) = bound {
            if b == computed.len() {
                let mut shorthands: Vec<Shorthand> = Vec::new();
                let mut i: usize = 0;
                while i < computed.len()
                    invariant
                        i <= computed.len(),
                        c == strings_view(computed@),
                        shorthands_view(shorthands@) == plain_longhands(c).take(i as int),
                    decreases computed.len() - i,
                {
                    let ghost before = shorthands_view(shorthands@);
                    shorthands.push(Shorthand { name: computed[i].clone(), components: Vec::new() });
                    assert(shorthands_view(shorthands@) =~= before.push((c[i as int], Seq::<usize>::empty())));
                    assert(plain_longhands(c).take(i + 1) =~= plain_longhands(c).take(i as int).push((c[i as int], Seq::<usize>::empty())));
                    i += 1;
                }
                assert(plain_longhands(c).take(i as int) =~= plain_longhands(c));
                let multiplier = if computed.len() == 2 {
                    Multiplier::DuoMulti
                } else if computed.len() == 4 {
                    Multiplier::QuadMulti
                } else {
                    Multiplier::NextProp
                };
                return Some(Shorthands { multiplier, shorthands, name: name.to_owned() });
            }
        }
        let mut found_props: Vec<Shorthand> = Vec::new();
        let mut i: usize = 0;
        while i < computed.len()
            invariant
                i <= computed.len(),
                c == strings_view(computed@),
                sv == syntax.view_components(),
                shorthands_view(found_props@) == found_longhands(sv, c.take(i as int)),
            decreases computed.len() - i,
        {
            assert(c.take(i + 1).drop_last() =~= c.take(i as int));
            assert(c.take(i + 1).last() == computed@[i as int]@);
            if let Some(sh) = syntax.has_property_syntax(computed[i].as_str()) {
                let ghost before = shorthands_view(found_props@);
                found_props.push(sh);
                assert(shorthands_view(found_props@) =~= before.push((sh.name(), sh.path())));
            }
            i += 1;
        }
        assert(c.take(i as int) =~= c);
        if found_props.len() == computed.len() {
            return Some(Shorthands { multiplier: Multiplier::NoMultiplier, shorthands: found_props, name: name.to_owned() });
        }
        if let SyntaxComponent::Group { components, .. } = first {
            proof {
                lemma_components_view(components@);
            }
            if components.len() == computed.len() {
                let mut shorthands: Vec<Shorthand> = Vec::new();
                let mut i: usize = 0;
                while i < computed.len()
                    invariant
                        i <= computed.len(),
                        c == strings_view(computed@),
                        shorthands_view(shorthands@) == indexed_longhands(c).take(i as int),
                    decreases computed.len() - i,
                {
                    let ghost before = shorthands_view(shorthands@);
                    let mut path: Vec<usize> = Vec::new();
                    path.push(i);
                    assert(path@ =~= seq![i]);
                    shorthands.push(Shorthand { name: computed[i].clone(), components: path });
                    assert(shorthands_view(shorthands@) =~= before.push((c[i as int], seq![i])));
                    assert(indexed_longhands(c).take(i + 1) =~= indexed_longhands(c).take(i as int).push((c[i as int], seq![i])));
                    i += 1;
                }
                assert(indexed_longhands(c).take(i as int) =~= indexed_longhands(c));
                return Some(Shorthands { multiplier: Multiplier::NoMultiplier, shorthands, name: name.to_owned() });
            }
        }
        if syntax.components.len() == 1 {
            match first {
                SyntaxComponent::TypeDefinition { definition, .. } => {
                    if let Some(s) = self.syntax_named(definition.as_str()) {
                        if let Some(mut sh) = self.resolve_shorthands_within(computed, s, name, Ghost((fuel - 1) as nat)) {
                            sh.multiplier = Multiplier::NoMultiplier;
                            return Some(sh);
                        }
                    }
                    if let Some(s) = self.property_syntax_named(definition.as_str()) {
                        if let Some(mut sh) = self.resolve_shorthands_within(computed, s, name, Ghost((fuel - 1) as nat)) {
                            sh.multiplier = Multiplier::NoMultiplier;
                            return Some(sh);
                        }
                    }
                },
                SyntaxComponent::Property { property, .. } => {
                    if let Some(s) = self.property_syntax_named(property.as_str()) {
                        if let Some(mut sh) = self.resolve_shorthands_within(computed, s, name, Ghost((fuel - 1) as nat)) {
                            sh.multiplier = Multiplier::NoMultiplier;
                            return Some(sh);
                        }
                    }
                },
                _ => {},
            }
        }
        None
    }
}

// ---------------------------------------------------------------------------------------
// Applying the fixes to the properties of a node.

/// A normal author declaration of `v`, with the specificity of a class.
pub open spec fn author_declaration(v: CssValueView) -> DeclarationView {
    DeclarationView {
        value: v,
        origin: CssOrigin::Author,
        important: false,
        location: Seq::empty(),
        specificity: Specificity { ids: 0, classes: 1, types: 0 },
    }
}

/// The (name, value) of each property.
pub open spec fn property_values(v: Seq<(String, CssProperty)>) -> Seq<(Seq<char>, PropertyValuesView)> {
    v.map_values(|e: (String, CssProperty)| (e.0@, property_values_view(e.1)))
}

/// `ps` with declaration `d` added to the property named `name`, or with a new property of
/// that name (to be computed, with no values yet) that has just `d`.
pub open spec fn add_declaration(
    ps: Seq<(Seq<char>, PropertyValuesView)>,
    name: Seq<char>,
    d: DeclarationView,
) -> Seq<(Seq<char>, PropertyValuesView)> {
    match index_of_key(ps, name, 0) {
        Some(i) => ps.update(i, (ps[i].0, PropertyValuesView { declared: ps[i].1.declared.push(d), ..ps[i].1 })),
        None => ps.push(
            (
                name,
                PropertyValuesView {
                    name,
                    dirty: true,
                    declared: seq![d],
                    cascaded: None,
                    specified: CssValueView::NoneValue,
                    computed: CssValueView::NoneValue,
                    used: CssValueView::NoneValue,
                    actual: CssValueView::NoneValue,
                },
            ),
        ),
    }
}

/// `ps` after the fixes `entries`, one after the other: the first value of each longhand
/// becomes a declaration of it (a longhand without values is passed over).
pub open spec fn apply_fixes(
    ps: Seq<(Seq<char>, PropertyValuesView)>,
    entries: Seq<(Seq<char>, Seq<CssValueView>)>,
) -> Seq<(Seq<char>, PropertyValuesView)>
    decreases entries.len(),
{
    if entries.len() == 0 {
        ps
    } else {
        let before = apply_fixes(ps, entries.drop_last());
        let e = entries.last();
        if e.1.len() == 0 {
            before
        } else {
            add_declaration(before, e.0, author_declaration(e.1[0]))
        }
    }
}

/// The (longhand, values) entries of a fix list of CSS values, as values.
pub open spec fn fix_values(s: Seq<(Seq<char>, Seq<CssValue>)>) -> Seq<(Seq<char>, Seq<CssValueView>)> {
    s.map_values(|e: (Seq<char>, Seq<CssValue>)| (e.0, values_view(e.1)))
}

impl FixList<CssValue> {
    /// Adds the first value of each longhand (in the order of the list) as a normal author
    /// declaration to the property of that name in `props`, creating the property if needed.
    pub fn apply(&self, props: &mut CssProperties)
        ensures
            property_values(final(props).properties@) == apply_fixes(
                property_values(old(props).properties@),
                fix_values(self.entries()),
            ),
    {
        let ghost es = fix_values(self.entries());
        assert(es.take(0) =~= Seq::<(Seq<char>, Seq<CssValueView>)>::empty());
        let mut i: usize = 0;
        while i < self.list.len()
            invariant
                i <= self.list.len(),
                es == fix_values(self.entries()),
                es.len() == self.list.len(),
                property_values(props.properties@) == apply_fixes(property_values(old(props).properties@), es.take(i as int)),
            decreases self.list.len() - i,
        {
            let ghost ps = property_values(props.properties@);
            assert(es.take(i + 1).drop_last() =~= es.take(i as int));
            assert(es[i as int] == (self.list@[i as int].0@, values_view(self.list@[i as int].1@)));
            proof {
                lemma_values_view(self.list@[i as int].1@);
            }
            if self.list[i].1.len() > 0 {
                let name = &self.list[i].0;
                let value = self.list[i].1[0].copy();
                let decl = DeclarationProperty {
                    value,
                    origin: CssOrigin::Author,
                    important: false,
                    location: String::new(),
                    specificity: Specificity::new(0, 1, 0),
                };
                assert(declaration_view(decl) == author_declaration(es[i as int].1[0]));
                let ghost t = properties_view(props.properties@);
                proof {
                    lemma_index_of_key_keys(ps, t, name@, 0);
                }
                let mut j: usize = 0;
                let k = chars_of(name.as_str());
                let mut found = false;
                while j < props.properties.len()
                    invariant_except_break
                        !found,
                    invariant
                        j <= props.properties.len(),
                        t == properties_view(props.properties@),
                        k@ == name@,
                        index_of_key(t, name@, 0) == index_of_key(t, name@, j as int),
                    ensures
                        j <= props.properties.len(),
                        found ==> j < props.properties.len() && index_of_key(t, name@, 0) == Some(j as int),
                        !found ==> index_of_key(t, name@, 0) is None,
                    decreases props.properties.len() - j,
                {
                    assert(t[j as int].0 == props.properties@[j as int].0@);
                    if chars_eq(&chars_of(props.properties[j].0.as_str()), &k) {
                        found = true;
                        break;
                    }
                    j += 1;
                }
                if found {
                    let ghost old_props = props.properties@;
                    props.properties[j].1.declared.push(decl);
                    proof {
                        let p0 = old_props[j as int].1;
                        let p1 = props.properties@[j as int].1;
                        assert(declarations_view(p1.declared@) =~= declarations_view(p0.declared@).push(declaration_view(decl)));
                        assert(property_values(props.properties@) =~= ps.update(
                            j as int,
                            (ps[j as int].0, PropertyValuesView { declared: ps[j as int].1.declared.push(declaration_view(decl)), ..ps[j as int].1 }),
                        ));
                    }
                } else {
                    let mut prop = CssProperty::new(name.as_str());
                    prop.declared.push(decl);
                    assert(declarations_view(prop.declared@) =~= seq![declaration_view(decl)]);
                    let ghost before = props.properties@;
                    props.properties.push((name.clone(), prop));
                    assert(property_values(props.properties@) =~= property_values(before).push((name@, property_values_view(prop))));
                }
            }
            i += 1;
        }
        assert(es.take(i as int) =~= es);
    }
}

/// Law: a step of a resolver that hands out a value, abandoned in place of completed, leaves
/// the fix list exactly as it was before the step, entries and counters alike (`f0` before
/// the step, `f1` after it, `f2` after abandoning it).
pub proof fn law_abandoned_step_changes_nothing<'a, V>(
    resolver: ShorthandResolver<'a>,
    idx: usize,
    f0: FixList<V>,
    r: Result<Option<ShorthandResolver<'a>>, CompleteStep<'a>>,
    f1: FixList<V>,
    f2: FixList<V>,
)
    requires
        forall|j: int| 0 <= j < f0.counters().len() ==> #[trigger] f0.counters()[j].1 < usize::MAX,
        (step_result_view(r), f1.counters()) == spec_step(
            resolver.current_multiplier(),
            resolver.name(),
            resolver.paths(),
            idx,
            f0.counters(),
        ),
        f1.entries() == f0.entries(),
        r matches Err(c) && f2.counters() == undo_counters(f1.counters(), c.undo()),
        f2.entries() == f1.entries(),
    ensures
        f2.entries() == f0.entries(),
        f2.counters() == f0.counters(),
{
    assert(f0.counters().len() == f0.multipliers@.len());
    assert(f0.multipliers@.len() == f0.multipliers.len());
    law_abandon_undoes_step(resolver.current_multiplier(), resolver.name(), resolver.paths(), idx, f0.counters());
}

} // verus!
