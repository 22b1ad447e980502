//! Scanning primitives over character sequences: each parser reads from a position of a
//! fixed input and reports the position where it stopped, together with what it read.
use vstd::prelude::*;

verus! {

/// `t` occurs in `s` at position `p`.
pub open spec fn starts_with_at(s: Seq<char>, p: int, t: Seq<char>) -> bool {
    0 <= p && p + t.len() <= s.len() && s.subrange(p, p + t.len()) == t
}

/// Reads the literal `t` at `p`.
pub open spec fn spec_tag(s: Seq<char>, p: int, t: Seq<char>) -> Option<int> {
    if starts_with_at(s, p, t) {
        Some(p + t.len())
    } else {
        None
    }
}

/// Space, tab, line feed or carriage return.
pub open spec fn is_multispace(c: char) -> bool {
    c == ' ' || c == '\t' || c == '\n' || c == '\r'
}

/// The position after the run of multispace characters that starts at `p`.
pub open spec fn skip_multispace(s: Seq<char>, p: int) -> int
    decreases s.len() - p,
{
    if 0 <= p < s.len() && is_multispace(s[p]) {
        skip_multispace(s, p + 1)
    } else {
        p
    }
}

/// The first position `q >= p` at which `t` occurs in `s`.
pub open spec fn find_from(s: Seq<char>, p: int, t: Seq<char>) -> Option<int>
    decreases s.len() + 1 - p,
{
    if p < 0 || p + t.len() > s.len() {
        None
    } else if starts_with_at(s, p, t) {
        Some(p)
    } else {
        find_from(s, p + 1, t)
    }
}

/// Reads everything up to the first occurrence of `t` (which is left unread); fails when `t`
/// does not occur.
pub open spec fn spec_take_until(s: Seq<char>, p: int, t: Seq<char>) -> Option<(int, Seq<char>)> {
    match find_from(s, p, t) {
        Some(q) => Some((q, s.subrange(p, q))),
        None => None,
    }
}

/// As `spec_take_until`, but fails when nothing would be read.
pub open spec fn spec_take_until1(s: Seq<char>, p: int, t: Seq<char>) -> Option<(int, Seq<char>)> {
    match find_from(s, p, t) {
        Some(q) => if q == p {
            None
        } else {
            Some((q, s.subrange(p, q)))
        },
        None => None,
    }
}

/// An ASCII decimal digit.
pub open spec fn is_digit(c: char) -> bool {
    '0' <= c && c <= '9'
}

/// The end of the run of digits that starts at `p`.
pub open spec fn digits_end(s: Seq<char>, p: int) -> int
    decreases s.len() - p,
{
    if 0 <= p < s.len() && is_digit(s[p]) {
        digits_end(s, p + 1)
    } else {
        p
    }
}

/// The number written by a sequence of decimal digits.
pub open spec fn decimal_value(d: Seq<char>) -> nat
    decreases d.len(),
{
    if d.len() == 0 {
        0
    } else {
        decimal_value(d.drop_last()) * 10 + (d.last() as nat - '0' as nat) as nat
    }
}

/// Reads an unsigned decimal number of at least one digit; fails when there is no digit or
/// when the number does not fit in a `u64`.
pub open spec fn spec_u64(s: Seq<char>, p: int) -> Option<(int, u64)> {
    let e = digits_end(s, p);
    if e == p || decimal_value(s.subrange(p, e)) > u64::MAX {
        None
    } else {
        Some((e, decimal_value(s.subrange(p, e)) as u64))
    }
}

/// Unicode `White_Space` (what `char::is_whitespace` tests).
pub open spec fn is_unicode_whitespace(c: char) -> bool {
    ||| ('\u{9}' <= c && c <= '\u{d}')
    ||| c == ' '
    ||| c == '\u{85}'
    ||| c == '\u{a0}'
    ||| c == '\u{1680}'
    ||| ('\u{2000}' <= c && c <= '\u{200a}')
    ||| c == '\u{2028}'
    ||| c == '\u{2029}'
    ||| c == '\u{202f}'
    ||| c == '\u{205f}'
    ||| c == '\u{3000}'
}

/// `s` without its leading white space.
pub open spec fn trim_start(s: Seq<char>) -> Seq<char>
    decreases s.len(),
{
    if s.len() > 0 && is_unicode_whitespace(s[0]) {
        trim_start(s.drop_first())
    } else {
        s
    }
}

/// `s` without its trailing white space.
pub open spec fn trim_end(s: Seq<char>) -> Seq<char>
    decreases s.len(),
{
    if s.len() > 0 && is_unicode_whitespace(s.last()) {
        trim_end(s.drop_last())
    } else {
        s
    }
}

/// `s` without leading and trailing white space (`str::trim`).
pub open spec fn trim(s: Seq<char>) -> Seq<char> {
    trim_end(trim_start(s))
}

/// A line without its line ending: a final carriage return is dropped too.
pub open spec fn strip_cr(l: Seq<char>) -> Seq<char> {
    if l.len() > 0 && l.last() == '\r' {
        l.drop_last()
    } else {
        l
    }
}

/// The lines of `s[p..]` (`str::lines`): split at each line feed, a carriage return before a
/// line feed belongs to the line ending, and a final line ending adds no empty line.
pub open spec fn lines_from(s: Seq<char>, p: int) -> Seq<Seq<char>>
    decreases s.len() - p,
{
    if p < 0 || p >= s.len() {
        Seq::empty()
    } else {
        match find_from(s, p, seq!['\n']) {
            Some(k) => {
                proof {
                    lemma_find_from_bounds(s, p, seq!['\n']);
                }
                seq![strip_cr(s.subrange(p, k))] + lines_from(s, k + 1)
            },
            None => seq![s.subrange(p, s.len() as int)],
        }
    }
}

/// The lines of `s` (`str::lines`).
pub open spec fn lines(s: Seq<char>) -> Seq<Seq<char>> {
    lines_from(s, 0)
}

// ---------------------------------------------------------------------------------------
// Executable counterparts.

/// Reads the literal `t` at `p`.
pub fn tag(s: &Vec<char>, p: usize, t: &Vec<char>) -> (r: Option<usize>)
    ensures
        r matches Some(q) ==> spec_tag(s@, p as int, t@) == Some(q as int),
        r is None ==> spec_tag(s@, p as int, t@) is None,
{
    if p > s.len() || t.len() > s.len() - p {
        return None;
    }
    let mut i: usize = 0;
    while i < t.len()
        invariant
            p + t.len() <= s.len(),
            i <= t.len(),
            forall|j: int| 0 <= j < i ==> s@[p + j] == t@[j],
        decreases t.len() - i,
    {
        if s[p + i] != t[i] {
            assert(s@.subrange(p as int, p + t.len())[i as int] != t@[i as int]);
            return None;
        }
        i += 1;
    }
    assert(s@.subrange(p as int, p + t.len()) =~= t@);
    Some(p + t.len())
}

/// The position after the run of multispace characters that starts at `p`.
pub fn multispace0(s: &Vec<char>, p: usize) -> (q: usize)
    requires
        p <= s.len(),
    ensures
        q as int == skip_multispace(s@, p as int),
        p <= q <= s.len(),
{
    let mut q = p;
    while q < s.len() && (s[q] == ' ' || s[q] == '\t' || s[q] == '\n' || s[q] == '\r')
        invariant
            p <= q <= s.len(),
            skip_multispace(s@, p as int) == skip_multispace(s@, q as int),
        decreases s.len() - q,
    {
        q += 1;
    }
    q
}

proof fn lemma_find_from_skip(s: Seq<char>, p: int, q: int, t: Seq<char>)
    requires
        0 <= p <= q,
        forall|k: int| p <= k < q ==> !starts_with_at(s, k, t),
        q + t.len() <= s.len(),
    ensures
        find_from(s, p, t) == find_from(s, q, t),
    decreases q - p,
{
    if p < q {
        lemma_find_from_skip(s, p + 1, q, t);
    }
}

proof fn lemma_find_from_none(s: Seq<char>, p: int, t: Seq<char>)
    requires
        0 <= p,
        forall|k: int| p <= k && k + t.len() <= s.len() ==> !starts_with_at(s, k, t),
    ensures
        find_from(s, p, t) is None,
    decreases s.len() + 1 - p,
{
    if p + t.len() <= s.len() {
        lemma_find_from_none(s, p + 1, t);
    }
}

/// The first position `q >= p` at which `t` occurs.
pub fn find(s: &Vec<char>, p: usize, t: &Vec<char>) -> (r: Option<usize>)
    requires
        p <= s.len(),
    ensures
        r matches Some(q) ==> find_from(s@, p as int, t@) == Some(q as int),
        r is None ==> find_from(s@, p as int, t@) is None,
{
    if t.len() > s.len() {
        proof { lemma_find_from_none(s@, p as int, t@); }
        return None;
    }
    let mut q = p;
    while q <= s.len() - t.len()
        invariant
            p <= q,
            t.len() <= s.len(),
            forall|k: int| p <= k < q ==> !starts_with_at(s@, k, t@),
        decreases s.len() + 1 - q,
    {
        if let Some(_) = tag(s, q, t) {
            proof { lemma_find_from_skip(s@, p as int, q as int, t@); }
            return Some(q);
        }
        assert(t@.len() > 0) by {
            if t@.len() == 0 {
                assert(s@.subrange(q as int, q as int) =~= t@);
            }
        }
        q += 1;
    }
    proof { lemma_find_from_none(s@, p as int, t@); }
    None
}

/// The characters `s[from..to]`.
pub fn sub_chars(s: &Vec<char>, from: usize, to: usize) -> (v: Vec<char>)
    requires
        from <= to <= s.len(),
    ensures
        v@ == s@.subrange(from as int, to as int),
{
    let mut v: Vec<char> = Vec::new();
    let mut i = from;
    while i < to
        invariant
            from <= i <= to <= s.len(),
            v@ == s@.subrange(from as int, i as int),
        decreases to - i,
    {
        v.push(s[i]);
        i += 1;
        assert(v@ =~= s@.subrange(from as int, i as int));
    }
    v
}

/// Reads everything up to the first occurrence of `t`.
pub fn take_until(s: &Vec<char>, p: usize, t: &Vec<char>) -> (r: Option<(usize, Vec<char>)>)
    requires
        p <= s.len(),
    ensures
        r matches Some((q, v)) ==> spec_take_until(s@, p as int, t@) == Some((q as int, v@)),
        r is None ==> spec_take_until(s@, p as int, t@) is None,
        r matches Some((q, v)) ==> p <= q <= s.len(),
{
    match find(s, p, t) {
        Some(q) => {
            proof { lemma_find_from_bounds(s@, p as int, t@); }
            Some((q, sub_chars(s, p, q)))
        },
        None => None,
    }
}

/// Reads everything up to the first occurrence of `t`, at least one character.
pub fn take_until1(s: &Vec<char>, p: usize, t: &Vec<char>) -> (r: Option<(usize, Vec<char>)>)
    requires
        p <= s.len(),
    ensures
        r matches Some((q, v)) ==> spec_take_until1(s@, p as int, t@) == Some((q as int, v@)),
        r is None ==> spec_take_until1(s@, p as int, t@) is None,
        r matches Some((q, v)) ==> p < q <= s.len(),
{
    match find(s, p, t) {
        Some(q) => {
            proof { lemma_find_from_bounds(s@, p as int, t@); }
            if q == p {
                None
            } else {
                Some((q, sub_chars(s, p, q)))
            }
        },
        None => None,
    }
}

/// Where `find_from` succeeds, the occurrence lies inside `s` at or after `p`.
pub proof fn lemma_find_from_bounds(s: Seq<char>, p: int, t: Seq<char>)
    ensures
        find_from(s, p, t) matches Some(q) ==> p <= q && q + t.len() <= s.len() && starts_with_at(s, q, t),
    decreases s.len() + 1 - p,
{
    if p >= 0 && p + t.len() <= s.len() && !starts_with_at(s, p, t) {
        lemma_find_from_bounds(s, p + 1, t);
    }
}

/// `skip_multispace` never moves backwards and stays inside the input.
pub proof fn lemma_skip_multispace_bounds(s: Seq<char>, p: int)
    requires
        0 <= p <= s.len(),
    ensures
        p <= skip_multispace(s, p) <= s.len(),
    decreases s.len() - p,
{
    if p < s.len() && is_multispace(s[p]) {
        lemma_skip_multispace_bounds(s, p + 1);
    }
}

/// `decimal_value` of a prefix never exceeds that of the whole.
pub proof fn lemma_decimal_prefix_le(d: Seq<char>, k: int)
    requires
        0 <= k <= d.len(),
    ensures
        decimal_value(d.take(k)) <= decimal_value(d),
    decreases d.len(),
{
    if k < d.len() {
        lemma_decimal_prefix_le(d.drop_last(), k);
        assert(d.drop_last().take(k) =~= d.take(k));
    } else {
        assert(d.take(k) =~= d);
    }
}

proof fn lemma_decimal_push(s: Seq<char>, p: int, i: int)
    requires
        0 <= p <= i < s.len(),
        is_digit(s[i]),
    ensures
        decimal_value(s.subrange(p, i + 1)) == decimal_value(s.subrange(p, i)) * 10 + (s[i] as nat - '0' as nat) as nat,
{
    assert(s.subrange(p, i + 1).drop_last() =~= s.subrange(p, i));
}

pub proof fn lemma_digits_end_bounds(s: Seq<char>, p: int)
    requires
        0 <= p <= s.len(),
    ensures
        p <= digits_end(s, p) <= s.len(),
        forall|k: int| p <= k < digits_end(s, p) ==> is_digit(#[trigger] s[k]),
    decreases s.len() - p,
{
    if p < s.len() && is_digit(s[p]) {
        lemma_digits_end_bounds(s, p + 1);
    }
}

/// Reads an unsigned decimal `u64` of at least one digit (as nom's `u64` parser does).
pub fn parse_u64(s: &Vec<char>, p: usize) -> (r: Option<(usize, u64)>)
    requires
        p <= s.len(),
    ensures
        r matches Some((q, v)) ==> spec_u64(s@, p as int) == Some((q as int, v)),
        r is None ==> spec_u64(s@, p as int) is None,
        r matches Some((q, v)) ==> p < q <= s.len(),
{
    let mut i = p;
    while i < s.len() && '0' <= s[i] && s[i] <= '9'
        invariant
            p <= i <= s.len(),
            digits_end(s@, p as int) == digits_end(s@, i as int),
        decreases s.len() - i,
    {
        i += 1;
    }
    let e = i;
    proof { lemma_digits_end_bounds(s@, p as int); }
    if e == p {
        return None;
    }
    let mut acc: u64 = 0;
    let mut j = p;
    while j < e
        invariant
            p <= j <= e <= s.len(),
            e == digits_end(s@, p as int),
            forall|k: int| p <= k < e ==> is_digit(#[trigger] s@[k]),
            acc as nat == decimal_value(s@.subrange(p as int, j as int)),
        decreases e - j,
    {
        let d = (s[j] as u32 - '0' as u32) as u64;
        proof { lemma_decimal_push(s@, p as int, j as int); }
        let next: u128 = acc as u128 * 10 + d as u128;
        if next > u64::MAX as u128 {
            proof {
                lemma_decimal_prefix_le(s@.subrange(p as int, e as int), j + 1 - p);
                assert(s@.subrange(p as int, e as int).take(j + 1 - p) =~= s@.subrange(p as int, j + 1));
            }
            return None;
        }
        acc = next as u64;
        j += 1;
    }
    Some((e, acc))
}

/// Unicode `White_Space`.
pub fn is_whitespace(c: char) -> (r: bool)
    ensures
        r == is_unicode_whitespace(c),
{
    ('\u{9}' <= c && c <= '\u{d}') || c == ' ' || c == '\u{85}' || c == '\u{a0}' || c == '\u{1680}'
        || ('\u{2000}' <= c && c <= '\u{200a}') || c == '\u{2028}' || c == '\u{2029}'
        || c == '\u{202f}' || c == '\u{205f}' || c == '\u{3000}'
}

/// `v` without leading and trailing white space (`str::trim`).
pub fn trim_chars(v: &Vec<char>) -> (r: Vec<char>)
    ensures
        r@ == trim(v@),
{
    let mut a: usize = 0;
    assert(v@.skip(0) =~= v@);
    while a < v.len() && is_whitespace(v[a])
        invariant
            a <= v.len(),
            trim_start(v@) == trim_start(v@.skip(a as int)),
        decreases v.len() - a,
    {
        assert(v@.skip(a as int).drop_first() =~= v@.skip(a + 1));
        a += 1;
    }
    let t = sub_chars(v, a, v.len());
    assert(t@ =~= v@.skip(a as int));
    let mut b: usize = t.len();
    assert(t@.take(b as int) =~= t@);
    while b > 0 && is_whitespace(t[b - 1])
        invariant
            b <= t.len(),
            trim_end(t@) == trim_end(t@.take(b as int)),
        decreases b,
    {
        assert(t@.take(b as int).drop_last() =~= t@.take(b - 1));
        b -= 1;
    }
    let r = sub_chars(&t, 0, b);
    assert(r@ =~= t@.take(b as int));
    r
}

/// A line without its line ending's carriage return.
fn strip_cr_chars(l: Vec<char>) -> (r: Vec<char>)
    ensures
        r@ == strip_cr(l@),
{
    let mut l = l;
    if l.len() > 0 && l[l.len() - 1] == '\r' {
        l.pop();
    }
    l
}

/// The lines of `v` (`str::lines`).
pub fn lines_of(v: &Vec<char>) -> (r: Vec<Vec<char>>)
    ensures
        r@.map_values(|l: Vec<char>| l@) == lines(v@),
{
    let nl = vec!['\n'];
    let mut r: Vec<Vec<char>> = Vec::new();
    let mut p: usize = 0;
    while p < v.len()
        invariant
            p <= v.len(),
            nl@ == seq!['\n'],
            lines(v@) == r@.map_values(|l: Vec<char>| l@) + lines_from(v@, p as int),
        decreases v.len() - p,
    {
        let ghost before = r@.map_values(|l: Vec<char>| l@);
        match find(v, p, &nl) {
            Some(k) => {
                proof { lemma_find_from_bounds(v@, p as int, nl@); }
                let line = strip_cr_chars(sub_chars(v, p, k));
                r.push(line);
                assert(r@.map_values(|l: Vec<char>| l@) =~= before.push(strip_cr(v@.subrange(p as int, k as int))));
                p = k + 1;
            },
            None => {
                let line = sub_chars(v, p, v.len());
                r.push(line);
                assert(r@.map_values(|l: Vec<char>| l@) =~= before.push(v@.subrange(p as int, v.len() as int)));
                assert(lines_from(v@, v.len() as int) =~= Seq::<Seq<char>>::empty());
                p = v.len();
            },
        }
    }
    assert(lines_from(v@, p as int) =~= Seq::<Seq<char>>::empty());
    r
}

} // verus!
