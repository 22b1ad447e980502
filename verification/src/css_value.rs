//! The values of CSS properties, as far as this crate reads them.
use vstd::prelude::*;
use crate::css_colors::RgbColor;
use crate::text::{chars_eq, chars_of, push_all, string_eq};
use crate::scan::{digits_end, parse_u64, spec_u64, sub_chars};

verus! {

/// A number as written in CSS source (for example `0`, `1.5`, `-2e3`). The library keeps
/// the text; turning it into a float is left to the caller.
#[derive(Debug, Clone, PartialEq, Eq)]
pub struct Number {
    pub text: String,
}

/// A CSS value.
#[derive(Debug, PartialEq, Eq)]
pub enum CssValue {
    /// No value (`none`)
    NoneValue,
    /// A color
    Color(RgbColor),
    /// The number zero written without a unit
    Zero,
    /// A number without a unit
    Number(Number),
    /// A percentage
    Percentage(Number),
    /// A number with a unit, such as `10px`
    Unit(Number, String),
    /// A keyword or string
    String(String),
    /// A list of values
    List(Vec<CssValue>),
    /// A comma between values
    Comma,
    /// A function with its arguments
    Function(String, Vec<CssValue>),
    /// The `initial` keyword
    Initial,
    /// The `inherit` keyword
    Inherit,
}

/// The mathematical value of a `CssValue`: strings and numbers become character sequences.
pub enum CssValueView {
    NoneValue,
    Color(RgbColor),
    Zero,
    Number(Seq<char>),
    Percentage(Seq<char>),
    Unit(Seq<char>, Seq<char>),
    String(Seq<char>),
    List(Seq<CssValueView>),
    Comma,
    Function(Seq<char>, Seq<CssValueView>),
    Initial,
    Inherit,
}

/// The value of a `CssValue`.
pub open spec fn value_view(v: CssValue) -> CssValueView
    decreases v,
{
    match v {
        CssValue::NoneValue => CssValueView::NoneValue,
        CssValue::Color(c) => CssValueView::Color(c),
        CssValue::Zero => CssValueView::Zero,
        CssValue::Number(n) => CssValueView::Number(n.text@),
        CssValue::Percentage(n) => CssValueView::Percentage(n.text@),
        CssValue::Unit(n, u) => CssValueView::Unit(n.text@, u@),
        CssValue::String(s) => CssValueView::String(s@),
        CssValue::List(l) => CssValueView::List(values_view(l@)),
        CssValue::Comma => CssValueView::Comma,
        CssValue::Function(name, args) => CssValueView::Function(name@, values_view(args@)),
        CssValue::Initial => CssValueView::Initial,
        CssValue::Inherit => CssValueView::Inherit,
    }
}

/// The values of a sequence of `CssValue`s.
pub open spec fn values_view(s: Seq<CssValue>) -> Seq<CssValueView>
    decreases s,
{
    if s.len() == 0 {
        Seq::empty()
    } else {
        values_view(s.subrange(0, s.len() - 1)).push(value_view(s[s.len() - 1]))
    }
}

impl View for CssValue {
    type V = CssValueView;

    open spec fn view(&self) -> CssValueView {
        value_view(*self)
    }
}

/// The values of a sequence, one by one.
pub proof fn lemma_values_view(v: Seq<CssValue>)
    ensures
        values_view(v).len() == v.len(),
        forall|i: int| 0 <= i < v.len() ==> values_view(v)[i] == value_view(#[trigger] v[i]),
    decreases v.len(),
{
    if v.len() > 0 {
        let w = v.subrange(0, v.len() - 1);
        lemma_values_view(w);
        assert forall|i: int| 0 <= i < v.len() implies values_view(v)[i] == value_view(#[trigger] v[i]) by {
            if i < v.len() - 1 {
                assert(w[i] == v[i]);
            }
        }
    }
}

/// The values of a sequence after a push.
pub proof fn lemma_values_view_push(v: Seq<CssValue>, x: CssValue)
    ensures
        values_view(v.push(x)) == values_view(v).push(value_view(x)),
{
    assert(v.push(x).subrange(0, v.len() as int) =~= v);
}

/// The values of two sequences one after the other.
pub proof fn lemma_values_view_add(a: Seq<CssValue>, b: Seq<CssValue>)
    ensures
        values_view(a + b) == values_view(a) + values_view(b),
{
    lemma_values_view(a);
    lemma_values_view(b);
    lemma_values_view(a + b);
    assert forall|k: int| 0 <= k < a.len() + b.len() implies #[trigger] values_view(a + b)[k] == (values_view(a) + values_view(b))[k] by {
        if k < a.len() {
            assert((a + b)[k] == a[k]);
        } else {
            assert((a + b)[k] == b[k - a.len()]);
        }
    }
    assert(values_view(a + b) =~= values_view(a) + values_view(b));
}

impl Number {
    /// A copy of the number.
    pub fn copy(&self) -> (r: Number)
        ensures
            r.text@ == self.text@,
    {
        Number { text: self.text.clone() }
    }
}

impl CssValue {
    /// A copy of the value.
    pub fn copy(&self) -> (r: CssValue)
        ensures
            r@ == self@,
        decreases self,
    {
        match self {
            CssValue::NoneValue => CssValue::NoneValue,
            CssValue::Color(c) => CssValue::Color(*c),
            CssValue::Zero => CssValue::Zero,
            CssValue::Number(n) => CssValue::Number(n.copy()),
            CssValue::Percentage(n) => CssValue::Percentage(n.copy()),
            CssValue::Unit(n, u) => CssValue::Unit(n.copy(), u.clone()),
            CssValue::String(s) => CssValue::String(s.clone()),
            CssValue::List(l) => CssValue::List(copy_values(l)),
            CssValue::Comma => CssValue::Comma,
            CssValue::Function(name, args) => CssValue::Function(name.clone(), copy_values(args)),
            CssValue::Initial => CssValue::Initial,
            CssValue::Inherit => CssValue::Inherit,
        }
    }

    /// Whether two values are the same value (numbers compare by value, see `same_value`).
    pub fn same_as(&self, other: &CssValue) -> (r: bool)
        ensures
            r == same_value(self@, other@),
        decreases self,
    {
        match (self, other) {
            (CssValue::NoneValue, CssValue::NoneValue) => true,
            (CssValue::Color(a), CssValue::Color(b)) => *a == *b,
            (CssValue::Zero, CssValue::Zero) => true,
            (CssValue::Number(a), CssValue::Number(b)) => same_number_text(&a.text, &b.text),
            (CssValue::Percentage(a), CssValue::Percentage(b)) => same_number_text(&a.text, &b.text),
            (CssValue::Unit(a, u), CssValue::Unit(b, w)) => same_number_text(&a.text, &b.text) && string_eq(u, w),
            (CssValue::String(a), CssValue::String(b)) => string_eq(a, b),
            (CssValue::List(a), CssValue::List(b)) => same_values(a, b),
            (CssValue::Comma, CssValue::Comma) => true,
            (CssValue::Function(n, a), CssValue::Function(m, b)) => string_eq(n, m) && same_values(a, b),
            (CssValue::Initial, CssValue::Initial) => true,
            (CssValue::Inherit, CssValue::Inherit) => true,
            _ => false,
        }
    }
}

/// Two values are the same value: numbers, percentages and the numbers of units by value
/// (`same_number`), lists and function arguments value by value, anything else as it is.
pub open spec fn same_value(v: CssValueView, w: CssValueView) -> bool
    decreases v,
{
    match v {
        CssValueView::Number(a) => match w {
            CssValueView::Number(b) => same_number(a, b),
            _ => false,
        },
        CssValueView::Percentage(a) => match w {
            CssValueView::Percentage(b) => same_number(a, b),
            _ => false,
        },
        CssValueView::Unit(a, u) => match w {
            CssValueView::Unit(b, x) => same_number(a, b) && u == x,
            _ => false,
        },
        CssValueView::List(a) => match w {
            CssValueView::List(b) => same_value_seq(a, b),
            _ => false,
        },
        CssValueView::Function(n, a) => match w {
            CssValueView::Function(m, b) => n == m && same_value_seq(a, b),
            _ => false,
        },
        _ => v == w,
    }
}

/// Two sequences of values are the same values, one by one.
pub open spec fn same_value_seq(a: Seq<CssValueView>, b: Seq<CssValueView>) -> bool
    decreases a,
{
    if a.len() != b.len() {
        false
    } else if a.len() == 0 {
        true
    } else {
        same_value_seq(a.subrange(0, a.len() - 1), b.subrange(0, b.len() - 1))
            && same_value(a[a.len() - 1], b[b.len() - 1])
    }
}

/// Sequences of the same values are so at each place.
proof fn lemma_same_value_seq(a: Seq<CssValueView>, b: Seq<CssValueView>, k: int)
    requires
        same_value_seq(a, b),
        0 <= k < a.len(),
    ensures
        same_value(a[k], b[k]),
    decreases a.len(),
{
    if k < a.len() - 1 {
        let a1 = a.subrange(0, a.len() - 1);
        let b1 = b.subrange(0, b.len() - 1);
        lemma_same_value_seq(a1, b1, k);
        assert(a1[k] == a[k] && b1[k] == b[k]);
    }
}

/// A copy of each value.
pub fn copy_values(v: &Vec<CssValue>) -> (r: Vec<CssValue>)
    ensures
        values_view(r@) == values_view(v@),
    decreases v,
{
    let mut r: Vec<CssValue> = Vec::new();
    let mut i: usize = 0;
    proof {
        lemma_values_view(v@);
        assert(values_view(Seq::<CssValue>::empty()) =~= values_view(v@).subrange(0, 0));
    }
    while i < v.len()
        invariant
            i <= v.len(),
            values_view(r@) == values_view(v@).subrange(0, i as int),
            values_view(v@).len() == v.len(),
            forall|k: int| 0 <= k < v.len() ==> values_view(v@)[k] == value_view(#[trigger] v@[k]),
        decreases v.len() - i,
    {
        assert(decreases_to!(v => v@[i as int]));
        let x = v[i].copy();
        proof { lemma_values_view_push(r@, x); }
        r.push(x);
        i += 1;
        assert(values_view(r@) =~= values_view(v@).subrange(0, i as int));
    }
    assert(values_view(v@).subrange(0, v.len() as int) =~= values_view(v@));
    r
}

/// Whether two sequences hold the same values (see `same_value_seq`).
pub fn same_values(a: &Vec<CssValue>, b: &Vec<CssValue>) -> (r: bool)
    ensures
        r == same_value_seq(values_view(a@), values_view(b@)),
    decreases a,
{
    let ghost va = values_view(a@);
    let ghost vb = values_view(b@);
    proof {
        lemma_values_view(a@);
        lemma_values_view(b@);
    }
    if a.len() != b.len() {
        return false;
    }
    let mut i: usize = 0;
    assert(va.take(0) =~= Seq::<CssValueView>::empty() && vb.take(0) =~= Seq::<CssValueView>::empty());
    while i < a.len()
        invariant
            i <= a.len() == b.len(),
            va == values_view(a@),
            vb == values_view(b@),
            va.len() == a.len(),
            vb.len() == b.len(),
            forall|k: int| 0 <= k < a.len() ==> va[k] == value_view(#[trigger] a@[k]),
            forall|k: int| 0 <= k < b.len() ==> vb[k] == value_view(#[trigger] b@[k]),
            same_value_seq(va.take(i as int), vb.take(i as int)),
        decreases a.len() - i,
    {
        assert(decreases_to!(a => a@[i as int]));
        assert(va.take(i + 1).subrange(0, i as int) =~= va.take(i as int));
        assert(vb.take(i + 1).subrange(0, i as int) =~= vb.take(i as int));
        if !a[i].same_as(&b[i]) {
            proof {
                if same_value_seq(va, vb) {
                    lemma_same_value_seq(va, vb, i as int);
                }
            }
            return false;
        }
        i += 1;
    }
    assert(va.take(i as int) =~= va);
    assert(vb.take(i as int) =~= vb);
    true
}

// ---------------------------------------------------------------------------------------
// Numbers by value.

/// The sign, the digits (integer part, then fraction) and the power of ten of a number
/// written as `[+|-]digits[.digits][(e|E)[+|-]digits]` with at least one digit before the
/// exponent; `None` for any other text, and for an exponent beyond `u64`.
pub open spec fn number_parts(t: Seq<char>) -> Option<(bool, Seq<char>, int)> {
    let p0: int = if t.len() > 0 && (t[0] == '-' || t[0] == '+') { 1 } else { 0 };
    let neg = t.len() > 0 && t[0] == '-';
    let e1 = digits_end(t, p0);
    let fs: int = if e1 < t.len() && t[e1] == '.' { e1 + 1 } else { e1 };
    let e2 = if e1 < t.len() && t[e1] == '.' { digits_end(t, e1 + 1) } else { e1 };
    let digits = t.subrange(p0, e1) + t.subrange(fs, e2);
    let frac_len = e2 - fs;
    if digits.len() == 0 {
        None
    } else if e2 == t.len() {
        Some((neg, digits, -frac_len))
    } else if t[e2] == 'e' || t[e2] == 'E' {
        let signed = e2 + 1 < t.len() && (t[e2 + 1] == '-' || t[e2 + 1] == '+');
        let q = if signed { e2 + 2 } else { e2 + 1 };
        let eneg = e2 + 1 < t.len() && t[e2 + 1] == '-';
        match spec_u64(t, q) {
            Some((end, v)) => if end == t.len() {
                Some((neg, digits, (if eneg { -(v as int) } else { v as int }) - frac_len))
            } else {
                None
            },
            None => None,
        }
    } else {
        None
    }
}

/// `d` without its leading zeros.
pub open spec fn strip_leading_zeros(d: Seq<char>) -> Seq<char>
    decreases d.len(),
{
    if d.len() > 0 && d[0] == '0' {
        strip_leading_zeros(d.drop_first())
    } else {
        d
    }
}

/// The digits `d` times ten to the `e`, without the trailing zeros of `d`.
pub open spec fn strip_trailing_zeros(d: Seq<char>, e: int) -> (Seq<char>, int)
    decreases d.len(),
{
    if d.len() > 0 && d.last() == '0' {
        strip_trailing_zeros(d.drop_last(), e + 1)
    } else {
        (d, e)
    }
}

/// The value of a number text, written one way only: zero as `(false, [], 0)`, any other
/// value as its sign, its digits from the first to the last that is not zero, and the power
/// of ten of the last.
pub open spec fn number_key(t: Seq<char>) -> Option<(bool, Seq<char>, int)> {
    match number_parts(t) {
        Some((neg, d, e)) => {
            let d1 = strip_leading_zeros(d);
            if d1.len() == 0 {
                Some((false, d1, 0))
            } else {
                let (d2, e2) = strip_trailing_zeros(d1, e);
                Some((neg, d2, e2))
            }
        },
        None => None,
    }
}

/// Two number texts write the same number (`1`, `1.0`, `+1` and `10e-1` alike); texts that
/// are no numbers of that form compare as written.
pub open spec fn same_number(a: Seq<char>, b: Seq<char>) -> bool {
    match (number_key(a), number_key(b)) {
        (Some(x), Some(y)) => x == y,
        _ => a == b,
    }
}

/// The end of the run of digits from `p`.
fn digits_end_at(t: &Vec<char>, p: usize) -> (e: usize)
    requires
        p <= t.len(),
    ensures
        e == digits_end(t@, p as int),
        p <= e <= t.len(),
{
    let mut i = p;
    while i < t.len() && '0' <= t[i] && t[i] <= '9'
        invariant
            p <= i <= t.len(),
            digits_end(t@, p as int) == digits_end(t@, i as int),
        decreases t.len() - i,
    {
        i += 1;
    }
    i
}

/// The value of a number text (see `number_key`).
fn number_key_of(t: &Vec<char>) -> (r: Option<(bool, Vec<char>, i128)>)
    ensures
        match (r, number_key(t@)) {
            (Some((n, d, e)), Some((n2, d2, e2))) => n == n2 && d@ == d2 && e as int == e2,
            (None, None) => true,
            _ => false,
        },
{
    let ghost s = t@;
    let n = t.len();
    let p0: usize = if n > 0 && (t[0] == '-' || t[0] == '+') { 1 } else { 0 };
    let neg = n > 0 && t[0] == '-';
    let e1 = digits_end_at(t, p0);
    let dot = e1 < n && t[e1] == '.';
    let fs: usize = if dot { e1 + 1 } else { e1 };
    let e2 = if dot { digits_end_at(t, e1 + 1) } else { e1 };
    let mut digits = sub_chars(t, p0, e1);
    let frac = sub_chars(t, fs, e2);
    push_all(&mut digits, &frac);
    let frac_len = e2 - fs;
    if digits.len() == 0 {
        return None;
    }
    let e: i128 = if e2 == n {
        -(frac_len as i128)
    } else if t[e2] == 'e' || t[e2] == 'E' {
        let signed = e2 + 1 < n && (t[e2 + 1] == '-' || t[e2 + 1] == '+');
        let q = if signed { e2 + 2 } else { e2 + 1 };
        let eneg = e2 + 1 < n && t[e2 + 1] == '-';
        match parse_u64(t, q) {
            Some((end, v)) => if end == n {
                (if eneg { -(v as i128) } else { v as i128 }) - frac_len as i128
            } else {
                return None;
            },
            None => {
                return None;
            },
        }
    } else {
        return None;
    };
    assert(number_parts(s) == Some((neg, digits@, e as int)));
    let len = digits.len();
    let mut a: usize = 0;
    assert(digits@.skip(0) =~= digits@);
    while a < len && digits[a] == '0'
        invariant
            a <= len == digits.len(),
            strip_leading_zeros(digits@) == strip_leading_zeros(digits@.skip(a as int)),
        decreases len - a,
    {
        assert(digits@.skip(a as int).drop_first() =~= digits@.skip(a + 1));
        a += 1;
    }
    if a == len {
        assert(digits@.skip(a as int) =~= Seq::<char>::empty());
        return Some((false, Vec::new(), 0));
    }
    let d1 = sub_chars(&digits, a, len);
    assert(d1@ =~= digits@.skip(a as int));
    assert(d1@[0] == digits@[a as int]);
    let mut b: usize = d1.len();
    let mut e3: i128 = e;
    assert(d1@.take(b as int) =~= d1@);
    while b > 0 && d1[b - 1] == '0'
        invariant
            b <= d1.len(),
            d1.len() <= len,
            d1@.len() > 0 && d1@[0] != '0',
            e3 == e + (d1.len() - b),
            -(u64::MAX as int) - (usize::MAX as int) <= e <= u64::MAX,
            strip_trailing_zeros(d1@, e as int) == strip_trailing_zeros(d1@.take(b as int), e3 as int),
        decreases b,
    {
        assert(d1@.take(b as int).drop_last() =~= d1@.take(b - 1));
        b -= 1;
        e3 = e3 + 1;
    }
    let d2 = sub_chars(&d1, 0, b);
    assert(d2@ =~= d1@.take(b as int));
    Some((neg, d2, e3))
}

/// Whether two number texts write the same number (see `same_number`).
pub fn same_number_text(a: &String, b: &String) -> (r: bool)
    ensures
        r == same_number(a@, b@),
{
    let ka = number_key_of(&chars_of(a.as_str()));
    let kb = number_key_of(&chars_of(b.as_str()));
    match (ka, kb) {
        (Some((n1, d1, e1)), Some((n2, d2, e2))) => n1 == n2 && chars_eq(&d1, &d2) && e1 == e2,
        _ => string_eq(a, b),
    }
}

} // verus!
