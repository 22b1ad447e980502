//! The parser of the value definition syntax: from the text of a syntax (such as
//! `[ left | right ] <length>?`) to its components.
//!
//! Every parser reads the input from a position and ends in one of three ways: it read a
//! value and tells where it stopped, it rejected the input (an alternative may then be tried
//! at the same position), or it aborted (nothing else is tried: a number with an exponent
//! marker but no exponent digits aborts the whole parse).
use vstd::prelude::*;
use crate::css_value::{CssValue, CssValueView, Number};
use crate::scan::{
    decimal_value, digits_end, is_digit, is_unicode_whitespace, is_whitespace, lemma_digits_end_bounds,
    lemma_skip_multispace_bounds, multispace0, parse_u64, skip_multispace, spec_tag, spec_u64,
    sub_chars, tag,
};
use crate::syntax::{
    component_view, components_view, lemma_components_view, lemma_components_view_push,
    strings_view, with_multiplier, ComponentView, GroupCombinators, NumberOrInfinity, RangeType, SyntaxComponent,
    SyntaxComponentMultiplier,
};
use crate::text::{chars_of, decimal_chars, digit_char, string_of};
use crate::syntax::{multiplier_chars, range_chars};

verus! {

/// How a parser ended, as a mathematical value.
pub enum Outcome<T> {
    /// It read a value and stopped at the given position.
    Parsed(int, T),
    /// It did not match; another alternative may be tried.
    Rejected,
    /// It failed for good; no alternative is tried.
    Aborted,
}

/// `a`, or `b` where `a` rejected the input.
pub open spec fn or_else<T>(a: Outcome<T>, b: Outcome<T>) -> Outcome<T> {
    if a is Rejected {
        b
    } else {
        a
    }
}

// ---------------------------------------------------------------------------------------
// Character classes and runs.

/// An ASCII letter.
pub open spec fn is_ascii_alpha(c: char) -> bool {
    ('a' <= c && c <= 'z') || ('A' <= c && c <= 'Z')
}

/// A character of a keyword: an ASCII letter or digit, or a dash.
pub open spec fn is_keyword_char(c: char) -> bool {
    is_ascii_alpha(c) || is_digit(c) || c == '-'
}

/// A character between two top-level parts of a component list: `|`, `&` or white space.
pub open spec fn is_list_separator(c: char) -> bool {
    c == '|' || c == '&' || is_unicode_whitespace(c)
}

/// `c` is `t`, or the upper-case form of the lower-case ASCII letter `t`.
pub open spec fn same_ignoring_case(c: char, t: char) -> bool {
    c == t || ('A' <= c && c <= 'Z' && (c as u32) + 32 == t as u32)
}

/// The end of the run of keyword characters that starts at `p`.
pub open spec fn keyword_run(s: Seq<char>, p: int) -> int
    decreases s.len() - p,
{
    if 0 <= p < s.len() && is_keyword_char(s[p]) {
        keyword_run(s, p + 1)
    } else {
        p
    }
}

/// The end of the run of ASCII letters that starts at `p`.
pub open spec fn alpha_run(s: Seq<char>, p: int) -> int
    decreases s.len() - p,
{
    if 0 <= p < s.len() && is_ascii_alpha(s[p]) {
        alpha_run(s, p + 1)
    } else {
        p
    }
}

/// The end of the run of spaces and tabs that starts at `p`.
pub open spec fn space_run(s: Seq<char>, p: int) -> int
    decreases s.len() - p,
{
    if 0 <= p < s.len() && (s[p] == ' ' || s[p] == '\t') {
        space_run(s, p + 1)
    } else {
        p
    }
}

/// The end of the run of list separators that starts at `p`.
pub open spec fn separator_run(s: Seq<char>, p: int) -> int
    decreases s.len() - p,
{
    if 0 <= p < s.len() && is_list_separator(s[p]) {
        separator_run(s, p + 1)
    } else {
        p
    }
}

/// The end of the run of white space that starts at `p`.
pub open spec fn whitespace_run(s: Seq<char>, p: int) -> int
    decreases s.len() - p,
{
    if 0 <= p < s.len() && is_unicode_whitespace(s[p]) {
        whitespace_run(s, p + 1)
    } else {
        p
    }
}

/// The end of the run of characters other than `'` that starts at `p`.
pub open spec fn unquoted_run(s: Seq<char>, p: int) -> int
    decreases s.len() - p,
{
    if 0 <= p < s.len() && s[p] != '\'' {
        unquoted_run(s, p + 1)
    } else {
        p
    }
}

/// A run never moves backwards and stays inside the input.
pub proof fn lemma_keyword_run(s: Seq<char>, p: int)
    requires
        0 <= p <= s.len(),
    ensures
        p <= keyword_run(s, p) <= s.len(),
        forall|k: int| p <= k < keyword_run(s, p) ==> is_keyword_char(#[trigger] s[k]),
    decreases s.len() - p,
{
    if p < s.len() && is_keyword_char(s[p]) {
        lemma_keyword_run(s, p + 1);
    }
}

/// A run never moves backwards and stays inside the input.
pub proof fn lemma_alpha_run(s: Seq<char>, p: int)
    requires
        0 <= p <= s.len(),
    ensures
        p <= alpha_run(s, p) <= s.len(),
        forall|k: int| p <= k < alpha_run(s, p) ==> is_ascii_alpha(#[trigger] s[k]),
    decreases s.len() - p,
{
    if p < s.len() && is_ascii_alpha(s[p]) {
        lemma_alpha_run(s, p + 1);
    }
}

/// A run never moves backwards and stays inside the input.
pub proof fn lemma_space_run(s: Seq<char>, p: int)
    requires
        0 <= p <= s.len(),
    ensures
        p <= space_run(s, p) <= s.len(),
    decreases s.len() - p,
{
    if p < s.len() && (s[p] == ' ' || s[p] == '\t') {
        lemma_space_run(s, p + 1);
    }
}

/// A run never moves backwards and stays inside the input.
pub proof fn lemma_separator_run(s: Seq<char>, p: int)
    requires
        0 <= p <= s.len(),
    ensures
        p <= separator_run(s, p) <= s.len(),
    decreases s.len() - p,
{
    if p < s.len() && is_list_separator(s[p]) {
        lemma_separator_run(s, p + 1);
    }
}

/// A run never moves backwards and stays inside the input.
pub proof fn lemma_whitespace_run(s: Seq<char>, p: int)
    requires
        0 <= p <= s.len(),
    ensures
        p <= whitespace_run(s, p) <= s.len(),
    decreases s.len() - p,
{
    if p < s.len() && is_unicode_whitespace(s[p]) {
        lemma_whitespace_run(s, p + 1);
    }
}

/// A run never moves backwards and stays inside the input.
pub proof fn lemma_unquoted_run(s: Seq<char>, p: int)
    requires
        0 <= p <= s.len(),
    ensures
        p <= unquoted_run(s, p) <= s.len(),
    decreases s.len() - p,
{
    if p < s.len() && s[p] != '\'' {
        lemma_unquoted_run(s, p + 1);
    }
}

/// `s[p]` is `c`.
pub open spec fn char_at(s: Seq<char>, p: int, c: char) -> bool {
    0 <= p < s.len() && s[p] == c
}

/// A keyword (at least one keyword character).
pub open spec fn sp_keyword(s: Seq<char>, p: int) -> Option<int> {
    let e = keyword_run(s, p);
    if e > p {
        Some(e)
    } else {
        None
    }
}

/// At least one ASCII letter.
pub open spec fn sp_alpha1(s: Seq<char>, p: int) -> Option<int> {
    let e = alpha_run(s, p);
    if e > p {
        Some(e)
    } else {
        None
    }
}

/// The literal `t`, with the multispace around it.
pub open spec fn sp_ws_tag(s: Seq<char>, p: int, t: Seq<char>) -> Option<int> {
    match spec_tag(s, skip_multispace(s, p), t) {
        Some(q) => Some(skip_multispace(s, q)),
        None => None,
    }
}

/// The literal `t` (lower-case ASCII or other characters), ignoring the case of ASCII letters
/// in the input.
pub open spec fn sp_tag_no_case(s: Seq<char>, p: int, t: Seq<char>) -> Option<int> {
    if 0 <= p && p + t.len() <= s.len() && forall|i: int| 0 <= i < t.len() ==> same_ignoring_case(#[trigger] s[p + i], t[i]) {
        Some(p + t.len())
    } else {
        None
    }
}

// ---------------------------------------------------------------------------------------
// Numbers and multipliers.

/// An unsigned decimal number of at least one digit that fits in a `u32`.
pub open spec fn sp_integer(s: Seq<char>, p: int) -> Option<(int, u32)> {
    match spec_u64(s, p) {
        Some((e, v)) => if v <= u32::MAX {
            Some((e, v as u32))
        } else {
            None
        },
        None => None,
    }
}

/// `sp_integer` with the multispace around it.
pub open spec fn sp_ws_integer(s: Seq<char>, p: int) -> Option<(int, u32)> {
    match sp_integer(s, skip_multispace(s, p)) {
        Some((e, v)) => Some((skip_multispace(s, e), v)),
        None => None,
    }
}

/// `min, max` or a single `n` (which stands for `n, n`).
pub open spec fn sp_range(s: Seq<char>, p: int) -> Option<(int, u32, u32)> {
    match sp_ws_integer(s, p) {
        None => None,
        Some((q, n)) => match sp_ws_tag(s, q, seq![',']) {
            Some(r) => match sp_ws_integer(s, r) {
                Some((t, m)) => Some((t, n, m)),
                None => Some((q, n, n)),
            },
            None => Some((q, n, n)),
        },
    }
}

/// `{min, max}` or `{n}`.
pub open spec fn sp_curly_multiplier(s: Seq<char>, p: int) -> Option<(int, SyntaxComponentMultiplier)> {
    match spec_tag(s, p, seq!['{']) {
        Some(q) => match sp_range(s, q) {
            Some((r, a, b)) => match spec_tag(s, r, seq!['}']) {
                Some(t) => Some((t, SyntaxComponentMultiplier::Between(a as usize, b as usize))),
                None => None,
            },
            None => None,
        },
        None => None,
    }
}

/// `#{min, max}`, `#{n}` or `#` (which stands for `#{1, 1}`).
pub open spec fn sp_comma_multiplier(s: Seq<char>, p: int) -> Option<(int, SyntaxComponentMultiplier)> {
    let braced = match sp_ws_tag(s, p, seq!['#', '{']) {
        Some(q) => match sp_range(s, q) {
            Some((r, a, b)) => match sp_ws_tag(s, r, seq!['}']) {
                Some(t) => Some((t, SyntaxComponentMultiplier::CommaSeparatedRepeat(a as usize, b as usize))),
                None => None,
            },
            None => None,
        },
        None => None,
    };
    match braced {
        Some(x) => Some(x),
        None => match sp_ws_tag(s, p, seq!['#']) {
            Some(q) => Some((q, SyntaxComponentMultiplier::CommaSeparatedRepeat(1, 1))),
            None => None,
        },
    }
}

/// The multiplier written at `p`; `Once` when there is none.
pub open spec fn sp_multipliers(s: Seq<char>, p: int) -> (int, SyntaxComponentMultiplier) {
    if char_at(s, p, '*') {
        (p + 1, SyntaxComponentMultiplier::ZeroOrMore)
    } else if char_at(s, p, '+') {
        (p + 1, SyntaxComponentMultiplier::OneOrMore)
    } else if char_at(s, p, '?') {
        (p + 1, SyntaxComponentMultiplier::Optional)
    } else if char_at(s, p, '!') {
        (p + 1, SyntaxComponentMultiplier::AtLeastOneValue)
    } else {
        match sp_comma_multiplier(s, p) {
            Some(x) => x,
            None => match sp_curly_multiplier(s, p) {
                Some(x) => x,
                None => (p, SyntaxComponentMultiplier::Once),
            },
        }
    }
}

/// The end of the digits and decimal point of a decimal number (after its optional sign).
pub open spec fn sp_mantissa_end(s: Seq<char>, p: int) -> Option<int> {
    let p0 = if char_at(s, p, '+') || char_at(s, p, '-') {
        p + 1
    } else {
        p
    };
    let d = digits_end(s, p0);
    if d > p0 {
        if char_at(s, d, '.') {
            Some(digits_end(s, d + 1))
        } else {
            Some(d)
        }
    } else if char_at(s, p0, '.') && digits_end(s, p0 + 1) > p0 + 1 {
        Some(digits_end(s, p0 + 1))
    } else {
        None
    }
}

/// A decimal number: optional sign, digits with an optional decimal point, and an optional
/// exponent. An exponent marker without digits aborts.
pub open spec fn sp_decimal(s: Seq<char>, p: int) -> Outcome<()> {
    match sp_mantissa_end(s, p) {
        None => Outcome::Rejected,
        Some(m) => if char_at(s, m, 'e') || char_at(s, m, 'E') {
            let e1 = if char_at(s, m + 1, '+') || char_at(s, m + 1, '-') {
                m + 2
            } else {
                m + 1
            };
            let d = digits_end(s, e1);
            if d > e1 {
                Outcome::Parsed(d, ())
            } else {
                Outcome::Aborted
            }
        } else {
            Outcome::Parsed(m, ())
        },
    }
}

/// A floating point number: a decimal number, or `nan` or `inf` in any case.
pub open spec fn sp_float(s: Seq<char>, p: int) -> Outcome<()> {
    match sp_decimal(s, p) {
        Outcome::Rejected => match sp_tag_no_case(s, p, seq!['n', 'a', 'n']) {
            Some(q) => Outcome::Parsed(q, ()),
            None => match sp_tag_no_case(s, p, seq!['i', 'n', 'f']) {
                Some(q) => Outcome::Parsed(q, ()),
                None => Outcome::Rejected,
            },
        },
        other => other,
    }
}

/// The number at `p` is a decimal number whose digits are all zero.
pub open spec fn sp_float_is_zero(s: Seq<char>, p: int) -> bool {
    &&& sp_decimal(s, p) is Parsed
    &&& sp_mantissa_end(s, p) matches Some(m)
    &&& forall|i: int| p <= i < m ==> !('1' <= #[trigger] s[i] && s[i] <= '9')
}

/// A number with a unit (`10px`), or a zero without one.
pub open spec fn sp_unit(s: Seq<char>, p: int) -> Outcome<ComponentView> {
    match sp_float(s, p) {
        Outcome::Parsed(e, _) => match sp_alpha1(s, e) {
            Some(f) => Outcome::Parsed(
                f,
                ComponentView::Value(
                    CssValueView::Unit(s.subrange(p, e), s.subrange(e, f)),
                    SyntaxComponentMultiplier::Once,
                ),
            ),
            None => if sp_float_is_zero(s, p) {
                Outcome::Parsed(e, ComponentView::Value(CssValueView::Zero, SyntaxComponentMultiplier::Once))
            } else {
                Outcome::Rejected
            },
        },
        Outcome::Rejected => Outcome::Rejected,
        Outcome::Aborted => Outcome::Aborted,
    }
}

// ---------------------------------------------------------------------------------------
// Components that hold no other component.

/// Letters separated by `|` (possibly none), from position `i` on, after the words `acc`.
pub open spec fn sp_alpha_list_rest(s: Seq<char>, i: int, acc: Seq<Seq<char>>) -> (int, Seq<Seq<char>>)
    decreases s.len() - i,
{
    if !(0 <= i <= s.len()) {
        (i, acc)
    } else {
        match sp_ws_tag(s, i, seq!['|']) {
            None => (i, acc),
            Some(j) => match sp_alpha1(s, j) {
                None => (i, acc),
                Some(k) => {
                    proof {
                        lemma_skip_multispace_bounds(s, i);
                        lemma_skip_multispace_bounds(s, skip_multispace(s, i) + 1);
                        lemma_alpha_run(s, j);
                    }
                    sp_alpha_list_rest(s, k, acc.push(s.subrange(j, k)))
                },
            },
        }
    }
}

/// Words of letters separated by `|`, possibly none.
pub open spec fn sp_alpha_list(s: Seq<char>, p: int) -> (int, Seq<Seq<char>>) {
    match sp_alpha1(s, p) {
        None => (p, Seq::empty()),
        Some(q) => sp_alpha_list_rest(s, q, seq![s.subrange(p, q)]),
    }
}

/// The inside of `unit( .. )`: an optional range `from..to` (either end may be left out) or a
/// single number, then the accepted units separated by `|`.
pub open spec fn sp_unit_inner(s: Seq<char>, p: int) -> (int, ComponentView) {
    let paired = {
        let (p1, from) = match sp_integer(s, p) {
            Some((q, n)) => (q, Some(n)),
            None => (p, None),
        };
        match spec_tag(s, p1, seq!['.', '.']) {
            Some(p2) => match sp_integer(s, p2) {
                Some((p3, m)) => Some((p3, from, Some(m))),
                None => Some((p2, from, None)),
            },
            None => None,
        }
    };
    let (pr, from, to) = match paired {
        Some(x) => x,
        None => match sp_integer(s, p) {
            Some((q, n)) => (q, Some(n), None),
            None => (p, None, None),
        },
    };
    let (r, units) = sp_alpha_list(s, skip_multispace(s, pr));
    (r, ComponentView::Unit(from, to, units, SyntaxComponentMultiplier::Once))
}

/// `unit( .. )`.
pub open spec fn sp_unit_function(s: Seq<char>, p: int) -> Outcome<ComponentView> {
    match spec_tag(s, p, seq!['u', 'n', 'i', 't', '(']) {
        None => Outcome::Rejected,
        Some(q) => {
            let (r, c) = sp_unit_inner(s, q);
            match spec_tag(s, r, seq![')']) {
                Some(t) => Outcome::Parsed(t, c),
                None => Outcome::Rejected,
            }
        },
    }
}

/// A quoted property name: `'name'`.
pub open spec fn sp_property(s: Seq<char>, p: int) -> Outcome<ComponentView> {
    match spec_tag(s, p, seq!['\'']) {
        None => Outcome::Rejected,
        Some(q) => match sp_keyword(s, q) {
            None => Outcome::Rejected,
            Some(r) => match spec_tag(s, r, seq!['\'']) {
                Some(t) => Outcome::Parsed(
                    t,
                    ComponentView::Property(s.subrange(q, r), SyntaxComponentMultiplier::Once),
                ),
                None => Outcome::Rejected,
            },
        },
    }
}

/// `inherit`, `initial` or `unset`.
pub open spec fn sp_specific_keyword(s: Seq<char>, p: int) -> Outcome<ComponentView> {
    match spec_tag(s, p, seq!['i', 'n', 'h', 'e', 'r', 'i', 't']) {
        Some(q) => Outcome::Parsed(q, ComponentView::Inherit(SyntaxComponentMultiplier::Once)),
        None => match spec_tag(s, p, seq!['i', 'n', 'i', 't', 'i', 'a', 'l']) {
            Some(q) => Outcome::Parsed(q, ComponentView::Initial(SyntaxComponentMultiplier::Once)),
            None => match spec_tag(s, p, seq!['u', 'n', 's', 'e', 't']) {
                Some(q) => Outcome::Parsed(q, ComponentView::Unset(SyntaxComponentMultiplier::Once)),
                None => Outcome::Rejected,
            },
        },
    }
}

/// A literal: `/` or `,` (with the multispace around them), or any text between single quotes.
pub open spec fn sp_literal(s: Seq<char>, p: int) -> Outcome<ComponentView> {
    match sp_ws_tag(s, p, seq!['/']) {
        Some(q) => Outcome::Parsed(q, ComponentView::Literal(seq!['/'], SyntaxComponentMultiplier::Once)),
        None => match sp_ws_tag(s, p, seq![',']) {
            Some(q) => Outcome::Parsed(q, ComponentView::Literal(seq![','], SyntaxComponentMultiplier::Once)),
            None => match spec_tag(s, p, seq!['\'']) {
                None => Outcome::Rejected,
                Some(q) => {
                    let r = unquoted_run(s, q);
                    match spec_tag(s, r, seq!['\'']) {
                        Some(t) => Outcome::Parsed(
                            t,
                            ComponentView::Literal(s.subrange(q, r), SyntaxComponentMultiplier::Once),
                        ),
                        None => Outcome::Rejected,
                    }
                },
            },
        },
    }
}

/// `inf`, `∞`, `-inf` or `-∞` (letters in any case).
pub open spec fn sp_infinity(s: Seq<char>, p: int) -> Option<(int, NumberOrInfinity)> {
    match sp_tag_no_case(s, p, seq!['i', 'n', 'f']) {
        Some(q) => Some((q, NumberOrInfinity::Infinity)),
        None => match sp_tag_no_case(s, p, seq!['∞']) {
            Some(q) => Some((q, NumberOrInfinity::Infinity)),
            None => match sp_tag_no_case(s, p, seq!['-', 'i', 'n', 'f']) {
                Some(q) => Some((q, NumberOrInfinity::NegativeInfinity)),
                None => match sp_tag_no_case(s, p, seq!['-', '∞']) {
                    Some(q) => Some((q, NumberOrInfinity::NegativeInfinity)),
                    None => None,
                },
            },
        },
    }
}

/// An integer with an optional minus sign, whose digits make a number up to `i64::MAX`.
pub open spec fn sp_signed_integer(s: Seq<char>, p: int) -> Option<(int, NumberOrInfinity)> {
    let negative = char_at(s, p, '-');
    let p1 = if negative {
        p + 1
    } else {
        p
    };
    match spec_u64(s, p1) {
        Some((e, v)) => if v <= i64::MAX {
            Some((e, NumberOrInfinity::FiniteI64(if negative {
                -(v as int)
            } else {
                v as int
            } as i64)))
        } else {
            None
        },
        None => None,
    }
}

/// One end of a range, with the multispace around it.
pub open spec fn sp_range_bound(s: Seq<char>, p: int) -> Option<(int, NumberOrInfinity)> {
    let a = skip_multispace(s, p);
    let v = match sp_infinity(s, a) {
        Some(x) => Some(x),
        None => sp_signed_integer(s, a),
    };
    match v {
        Some((b, n)) => Some((skip_multispace(s, b), n)),
        None => None,
    }
}

/// The range of a type definition: `[min, max]`, where either end may be left out.
pub open spec fn sp_typedef_range(s: Seq<char>, p: int) -> Option<(int, RangeType)> {
    match sp_ws_tag(s, p, seq!['[']) {
        None => None,
        Some(q) => {
            let (q1, min) = match sp_range_bound(s, q) {
                Some((e, n)) => (e, n),
                None => (q, NumberOrInfinity::Unbounded),
            };
            match spec_tag(s, q1, seq![',']) {
                None => None,
                Some(q2) => {
                    let (q3, max) = match sp_range_bound(s, q2) {
                        Some((e, n)) => (e, n),
                        None => (q2, NumberOrInfinity::Unbounded),
                    };
                    match sp_ws_tag(s, q3, seq![']']) {
                        Some(q4) => Some((q4, RangeType { min, max })),
                        None => None,
                    }
                },
            }
        },
    }
}

/// A keyword, followed by `()` where that is written.
pub open spec fn sp_keyword_or_function(s: Seq<char>, p: int) -> Option<int> {
    match sp_keyword(s, p) {
        None => None,
        Some(k) => match spec_tag(s, k, seq!['(', ')']) {
            Some(r) => Some(r),
            None => Some(k),
        },
    }
}

/// The name of a type definition and its optional range, from `p` to the result's position.
pub open spec fn sp_typedef_name(s: Seq<char>, p: int, quoted: bool) -> Option<(int, Seq<char>, RangeType)> {
    let name = if quoted {
        match sp_ws_tag(s, p, seq!['\'']) {
            Some(a) => match sp_keyword_or_function(s, a) {
                Some(b) => match sp_ws_tag(s, b, seq!['\'']) {
                    Some(c) => Some((c, s.subrange(a, b))),
                    None => None,
                },
                None => None,
            },
            None => None,
        }
    } else {
        match sp_keyword_or_function(s, p) {
            Some(b) => Some((b, s.subrange(p, b))),
            None => None,
        }
    };
    match name {
        None => None,
        Some((c, n)) => match sp_typedef_range(s, c) {
            Some((d, r)) => Some((d, n, r)),
            None => Some((c, n, RangeType { min: NumberOrInfinity::Unbounded, max: NumberOrInfinity::Unbounded })),
        },
    }
}

/// A type definition: `<name>`, `<name()>` or `<'name'>`, each with an optional range.
pub open spec fn sp_typedef(s: Seq<char>, p: int) -> Outcome<ComponentView> {
    match sp_ws_tag(s, p, seq!['<']) {
        None => Outcome::Rejected,
        Some(q) => {
            let inner = match sp_typedef_name(s, q, false) {
                Some((e, n, r)) => Some((e, n, false, r)),
                None => match sp_typedef_name(s, q, true) {
                    Some((e, n, r)) => Some((e, n, true, r)),
                    None => None,
                },
            };
            match inner {
                None => Outcome::Rejected,
                Some((e, n, quoted, r)) => match sp_ws_tag(s, e, seq!['>']) {
                    Some(t) => Outcome::Parsed(
                        t,
                        ComponentView::TypeDefinition(n, quoted, r, SyntaxComponentMultiplier::Once),
                    ),
                    None => Outcome::Rejected,
                },
            }
        },
    }
}

/// A keyword standing for itself.
pub open spec fn sp_generic_keyword(s: Seq<char>, p: int) -> Outcome<ComponentView> {
    match sp_keyword(s, p) {
        Some(q) => Outcome::Parsed(
            q,
            ComponentView::GenericKeyword(s.subrange(p, q), SyntaxComponentMultiplier::Once),
        ),
        None => Outcome::Rejected,
    }
}

/// `()` with spaces or tabs around and inside it.
pub open spec fn sp_empty_arglist(s: Seq<char>, p: int) -> Option<int> {
    let a = space_run(s, p);
    if char_at(s, a, '(') {
        let b = space_run(s, space_run(s, space_run(s, a + 1)));
        if char_at(s, b, ')') {
            Some(space_run(s, b + 1))
        } else {
            None
        }
    } else {
        None
    }
}

// ---------------------------------------------------------------------------------------
// Components that hold other components.

/// The levels of the component lists, from the one that binds tightest: `|`, `||`, `&&`.
#[derive(Debug, Clone, Copy, PartialEq, Eq, Structural)]
pub enum Level {
    /// Components separated by `|`: exactly one must match.
    Bar,
    /// Lists of the level below separated by `||`: at least one must match.
    DoubleBar,
    /// Lists of the level below separated by `&&`: all must match.
    DoubleAmpersand,
}

/// The separator of a level.
pub open spec fn level_separator(l: Level) -> Seq<char> {
    match l {
        Level::Bar => seq!['|'],
        Level::DoubleBar => seq!['|', '|'],
        Level::DoubleAmpersand => seq!['&', '&'],
    }
}

/// The combinator of the group that a level builds.
pub open spec fn level_combinator(l: Level) -> GroupCombinators {
    match l {
        Level::Bar => GroupCombinators::ExactlyOne,
        Level::DoubleBar => GroupCombinators::AtLeastOneAnyOrder,
        Level::DoubleAmpersand => GroupCombinators::AllAnyOrder,
    }
}

/// The order in which the parsers of this module call each other at one position.
pub open spec fn level_rank(l: Level) -> int {
    match l {
        Level::Bar => 4,
        Level::DoubleBar => 6,
        Level::DoubleAmpersand => 8,
    }
}

/// `c` with its multiplier replaced by `m`.
pub open spec fn view_with_multiplier(c: ComponentView, m: SyntaxComponentMultiplier) -> ComponentView {
    match c {
        ComponentView::GenericKeyword(k, _) => ComponentView::GenericKeyword(k, m),
        ComponentView::Property(k, _) => ComponentView::Property(k, m),
        ComponentView::Function(n, a, _) => ComponentView::Function(n, a, m),
        ComponentView::TypeDefinition(n, q, r, _) => ComponentView::TypeDefinition(n, q, r, m),
        ComponentView::Inherit(_) => ComponentView::Inherit(m),
        ComponentView::Initial(_) => ComponentView::Initial(m),
        ComponentView::Unset(_) => ComponentView::Unset(m),
        ComponentView::Literal(l, _) => ComponentView::Literal(l, m),
        ComponentView::Value(v, _) => ComponentView::Value(v, m),
        ComponentView::Group(c, k, _) => ComponentView::Group(c, k, m),
        ComponentView::Unit(f, t, u, _) => ComponentView::Unit(f, t, u, m),
        ComponentView::Scalar(k, _) => ComponentView::Scalar(k, m),
    }
}

/// One component, or a group of several with the given combinator.
pub open spec fn single_or_group(cs: Seq<ComponentView>, k: GroupCombinators) -> ComponentView {
    if cs.len() == 1 {
        cs[0]
    } else {
        ComponentView::Group(cs, k, SyntaxComponentMultiplier::Once)
    }
}

/// The component that a parsed list stands for.
pub open spec fn finish_list(o: Outcome<Seq<ComponentView>>, k: GroupCombinators) -> Outcome<ComponentView> {
    match o {
        Outcome::Parsed(r, cs) => Outcome::Parsed(r, single_or_group(cs, k)),
        Outcome::Rejected => Outcome::Rejected,
        Outcome::Aborted => Outcome::Aborted,
    }
}

/// A group: a component list between `[` and `]`.
pub open spec fn sp_group(s: Seq<char>, p: int) -> Outcome<ComponentView>
    decreases s.len() - p, 0int,
{
    if !(0 <= p <= s.len()) {
        Outcome::Rejected
    } else {
        match sp_ws_tag(s, p, seq!['[']) {
            None => Outcome::Rejected,
            Some(q) => {
                proof {
                    lemma_skip_multispace_bounds(s, p);
                    lemma_skip_multispace_bounds(s, skip_multispace(s, p) + 1);
                }
                match sp_list(s, q) {
                    Outcome::Parsed(r, c) => match sp_ws_tag(s, r, seq![']']) {
                        Some(t) => Outcome::Parsed(t, c),
                        None => Outcome::Rejected,
                    },
                    Outcome::Rejected => Outcome::Rejected,
                    Outcome::Aborted => Outcome::Aborted,
                }
            },
        }
    }
}

/// A function: a keyword followed by `()`, or by a component list in parentheses, which
/// becomes its argument.
pub open spec fn sp_function(s: Seq<char>, p: int) -> Outcome<ComponentView>
    decreases s.len() - p, 0int,
{
    if !(0 <= p <= s.len()) {
        Outcome::Rejected
    } else {
        match sp_keyword(s, p) {
            None => Outcome::Rejected,
            Some(q) => {
                let name = s.subrange(p, q);
                match sp_empty_arglist(s, q) {
                    Some(e) => Outcome::Parsed(e, ComponentView::Function(name, Seq::empty(), SyntaxComponentMultiplier::Once)),
                    None => match sp_ws_tag(s, q, seq!['(']) {
                        None => Outcome::Rejected,
                        Some(a) => {
                            proof {
                                lemma_keyword_run(s, p);
                                lemma_skip_multispace_bounds(s, q);
                                lemma_skip_multispace_bounds(s, skip_multispace(s, q) + 1);
                                lemma_skip_multispace_bounds(s, a);
                            }
                            let b = skip_multispace(s, a);
                            match sp_list(s, b) {
                                Outcome::Parsed(c, arg) => match sp_ws_tag(s, skip_multispace(s, c), seq![')']) {
                                    Some(e) => Outcome::Parsed(e, ComponentView::Function(name, seq![arg], SyntaxComponentMultiplier::Once)),
                                    None => Outcome::Rejected,
                                },
                                Outcome::Rejected => Outcome::Rejected,
                                Outcome::Aborted => Outcome::Aborted,
                            }
                        },
                    },
                }
            },
        }
    }
}

/// The kinds of components, tried in this order: `unit()`, function, quoted property,
/// `inherit`/`initial`/`unset`, literal, group, number with a unit, type definition, keyword.
pub open spec fn sp_alternatives(s: Seq<char>, p: int) -> Outcome<ComponentView>
    decreases s.len() - p, 1int,
{
    or_else(sp_unit_function(s, p),
    or_else(sp_function(s, p),
    or_else(sp_property(s, p),
    or_else(sp_specific_keyword(s, p),
    or_else(sp_literal(s, p),
    or_else(sp_group(s, p),
    or_else(sp_unit(s, p),
    or_else(sp_typedef(s, p),
    sp_generic_keyword(s, p)))))))))
}

/// A component with its multiplier.
pub open spec fn sp_component(s: Seq<char>, p: int) -> Outcome<ComponentView>
    decreases s.len() - p, 2int,
{
    match sp_alternatives(s, p) {
        Outcome::Parsed(q, c) => {
            let (r, m) = sp_multipliers(s, q);
            Outcome::Parsed(r, view_with_multiplier(c, m))
        },
        Outcome::Rejected => Outcome::Rejected,
        Outcome::Aborted => Outcome::Aborted,
    }
}

/// An element of a list of level `l`: a component, or a list of the level below.
pub open spec fn sp_element(s: Seq<char>, p: int, l: Level) -> Outcome<ComponentView>
    decreases s.len() - p, level_rank(l) - 1,
{
    match l {
        Level::Bar => sp_component(s, p),
        Level::DoubleBar => sp_level(s, p, Level::Bar),
        Level::DoubleAmpersand => sp_level(s, p, Level::DoubleBar),
    }
}

/// Further elements of a list of level `l`, each after the level's separator, from `i` on,
/// after the elements `acc`.
pub open spec fn sp_level_rest(s: Seq<char>, i: int, l: Level, acc: Seq<ComponentView>) -> Outcome<Seq<ComponentView>>
    decreases s.len() - i, level_rank(l),
{
    if !(0 <= i <= s.len()) {
        Outcome::Rejected
    } else {
        match sp_ws_tag(s, i, level_separator(l)) {
            None => Outcome::Parsed(i, acc),
            Some(j) => {
                proof {
                    lemma_skip_multispace_bounds(s, i);
                    lemma_skip_multispace_bounds(s, skip_multispace(s, i) + level_separator(l).len());
                }
                match sp_element(s, j, l) {
                    Outcome::Rejected => Outcome::Parsed(i, acc),
                    Outcome::Aborted => Outcome::Aborted,
                    Outcome::Parsed(k, c) => if i < k <= s.len() {
                        sp_level_rest(s, k, l, acc.push(c))
                    } else {
                        Outcome::Parsed(i, acc)
                    },
                }
            },
        }
    }
}

/// A list of level `l`: its elements separated by the level's separator; a single element
/// stands for itself, several make a group.
pub open spec fn sp_level(s: Seq<char>, p: int, l: Level) -> Outcome<ComponentView>
    decreases s.len() - p, level_rank(l),
{
    if !(0 <= p <= s.len()) {
        Outcome::Rejected
    } else {
        match sp_element(s, p, l) {
            Outcome::Parsed(q, c) => if p < q <= s.len() {
                finish_list(sp_level_rest(s, q, l, seq![c]), level_combinator(l))
            } else {
                Outcome::Rejected
            },
            Outcome::Rejected => Outcome::Rejected,
            Outcome::Aborted => Outcome::Aborted,
        }
    }
}

/// Further `&&` lists of a component list, from `i` on, after the lists `acc`: each after a
/// run of `|`, `&` and white space, which may be empty.
pub open spec fn sp_list_rest(s: Seq<char>, i: int, acc: Seq<ComponentView>) -> Outcome<Seq<ComponentView>>
    decreases s.len() - i, 9int,
{
    if !(0 <= i <= s.len()) {
        Outcome::Rejected
    } else if i == s.len() {
        Outcome::Parsed(i, acc)
    } else {
        let j = separator_run(s, i);
        let k = whitespace_run(s, j);
        proof {
            lemma_separator_run(s, i);
            lemma_whitespace_run(s, j);
        }
        if k == s.len() {
            Outcome::Parsed(i, acc)
        } else {
            match sp_level(s, k, Level::DoubleAmpersand) {
                Outcome::Rejected => Outcome::Parsed(i, acc),
                Outcome::Aborted => Outcome::Aborted,
                Outcome::Parsed(r, c) => if i < r <= s.len() {
                    sp_list_rest(s, r, acc.push(c))
                } else {
                    Outcome::Parsed(i, acc)
                },
            }
        }
    }
}

/// A component list: `&&` lists one after the other; a single one stands for itself,
/// several make a juxtaposition group.
pub open spec fn sp_list(s: Seq<char>, p: int) -> Outcome<ComponentView>
    decreases s.len() - p, 10int,
{
    if !(0 <= p <= s.len()) {
        Outcome::Rejected
    } else {
        match sp_level(s, p, Level::DoubleAmpersand) {
            Outcome::Parsed(q, c) => if p < q <= s.len() {
                finish_list(sp_list_rest(s, q, seq![c]), GroupCombinators::Juxtaposition)
            } else {
                Outcome::Rejected
            },
            Outcome::Rejected => Outcome::Rejected,
            Outcome::Aborted => Outcome::Aborted,
        }
    }
}

/// A whole syntax: multispace, then a component list.
pub open spec fn sp_parse(s: Seq<char>) -> Outcome<ComponentView> {
    sp_list(s, skip_multispace(s, 0))
}

// =======================================================================================
// Executable parsers. Each one reads `s` from `p` and agrees with the spec function of the
// same name.

/// How a parser failed.
#[derive(Debug, Clone, Copy, PartialEq, Eq, Structural)]
pub enum Halt {
    /// It did not match; another alternative may be tried.
    Rejected,
    /// It failed for good.
    Aborted,
}

/// The position read, as a mathematical value.
pub open spec fn pos_of(r: Option<usize>) -> Option<int> {
    match r {
        Some(q) => Some(q as int),
        None => None,
    }
}

/// The outcome of a parser that reads no value.
pub open spec fn unit_outcome(r: Result<usize, Halt>) -> Outcome<()> {
    match r {
        Ok(q) => Outcome::Parsed(q as int, ()),
        Err(Halt::Rejected) => Outcome::Rejected,
        Err(Halt::Aborted) => Outcome::Aborted,
    }
}

/// The outcome of a parser that reads a component.
pub open spec fn outcome_of(r: Result<(usize, SyntaxComponent), Halt>) -> Outcome<ComponentView> {
    match r {
        Ok((q, c)) => Outcome::Parsed(q as int, c@),
        Err(Halt::Rejected) => Outcome::Rejected,
        Err(Halt::Aborted) => Outcome::Aborted,
    }
}

/// The outcome of a parser that reads several components.
pub open spec fn outcomes_of(r: Result<(usize, Vec<SyntaxComponent>), Halt>) -> Outcome<Seq<ComponentView>> {
    match r {
        Ok((q, v)) => Outcome::Parsed(q as int, components_view(v@)),
        Err(Halt::Rejected) => Outcome::Rejected,
        Err(Halt::Aborted) => Outcome::Aborted,
    }
}

/// The characters of a short literal.
fn chars1(a: char) -> (v: Vec<char>)
    ensures
        v@ == seq![a],
{
    let v = vec![a];
    assert(v@ =~= seq![a]);
    v
}

/// The characters of a short literal.
fn chars2(a: char, b: char) -> (v: Vec<char>)
    ensures
        v@ == seq![a, b],
{
    let v = vec![a, b];
    assert(v@ =~= seq![a, b]);
    v
}

/// The characters of a short literal.
fn chars3(a: char, b: char, c: char) -> (v: Vec<char>)
    ensures
        v@ == seq![a, b, c],
{
    let v = vec![a, b, c];
    assert(v@ =~= seq![a, b, c]);
    v
}

/// Whether `c` is a keyword character.
fn is_keyword_character(c: char) -> (r: bool)
    ensures
        r == is_keyword_char(c),
{
    ('a' <= c && c <= 'z') || ('A' <= c && c <= 'Z') || ('0' <= c && c <= '9') || c == '-'
}

/// Whether `c` separates the parts of a component list, besides white space.
fn is_custom_separator(c: char) -> (r: bool)
    ensures
        r == (c == '|' || c == '&'),
{
    if c == ',' {
        return false;
    }
    c == '|' || c == '&'
}

fn keyword_end(s: &Vec<char>, p: usize) -> (q: usize)
    requires
        p <= s.len(),
    ensures
        q == keyword_run(s@, p as int),
        p <= q <= s.len(),
{
    let mut q = p;
    while q < s.len() && is_keyword_character(s[q])
        invariant
            p <= q <= s.len(),
            keyword_run(s@, p as int) == keyword_run(s@, q as int),
        decreases s.len() - q,
    {
        q += 1;
    }
    q
}

fn alpha_end(s: &Vec<char>, p: usize) -> (q: usize)
    requires
        p <= s.len(),
    ensures
        q == alpha_run(s@, p as int),
        p <= q <= s.len(),
{
    let mut q = p;
    while q < s.len() && (('a' <= s[q] && s[q] <= 'z') || ('A' <= s[q] && s[q] <= 'Z'))
        invariant
            p <= q <= s.len(),
            alpha_run(s@, p as int) == alpha_run(s@, q as int),
        decreases s.len() - q,
    {
        q += 1;
    }
    q
}

fn space_end(s: &Vec<char>, p: usize) -> (q: usize)
    requires
        p <= s.len(),
    ensures
        q == space_run(s@, p as int),
        p <= q <= s.len(),
{
    let mut q = p;
    while q < s.len() && (s[q] == ' ' || s[q] == '\t')
        invariant
            p <= q <= s.len(),
            space_run(s@, p as int) == space_run(s@, q as int),
        decreases s.len() - q,
    {
        q += 1;
    }
    q
}

fn separator_end(s: &Vec<char>, p: usize) -> (q: usize)
    requires
        p <= s.len(),
    ensures
        q == separator_run(s@, p as int),
        p <= q <= s.len(),
{
    let mut q = p;
    while q < s.len() && (is_custom_separator(s[q]) || is_whitespace(s[q]))
        invariant
            p <= q <= s.len(),
            separator_run(s@, p as int) == separator_run(s@, q as int),
        decreases s.len() - q,
    {
        q += 1;
    }
    q
}

fn whitespace_end(s: &Vec<char>, p: usize) -> (q: usize)
    requires
        p <= s.len(),
    ensures
        q == whitespace_run(s@, p as int),
        p <= q <= s.len(),
{
    let mut q = p;
    while q < s.len() && is_whitespace(s[q])
        invariant
            p <= q <= s.len(),
            whitespace_run(s@, p as int) == whitespace_run(s@, q as int),
        decreases s.len() - q,
    {
        q += 1;
    }
    q
}

fn unquoted_end(s: &Vec<char>, p: usize) -> (q: usize)
    requires
        p <= s.len(),
    ensures
        q == unquoted_run(s@, p as int),
        p <= q <= s.len(),
{
    let mut q = p;
    while q < s.len() && s[q] != '\''
        invariant
            p <= q <= s.len(),
            unquoted_run(s@, p as int) == unquoted_run(s@, q as int),
        decreases s.len() - q,
    {
        q += 1;
    }
    q
}

pub fn digit_end(s: &Vec<char>, p: usize) -> (q: usize)
    requires
        p <= s.len(),
    ensures
        q == digits_end(s@, p as int),
        p <= q <= s.len(),
{
    let mut q = p;
    while q < s.len() && '0' <= s[q] && s[q] <= '9'
        invariant
            p <= q <= s.len(),
            digits_end(s@, p as int) == digits_end(s@, q as int),
        decreases s.len() - q,
    {
        q += 1;
    }
    q
}

/// Whether `s[p]` is `c`.
fn at(s: &Vec<char>, p: usize, c: char) -> (r: bool)
    ensures
        r == char_at(s@, p as int, c),
{
    p < s.len() && s[p] == c
}

/// A keyword.
fn keyword(s: &Vec<char>, p: usize) -> (r: Option<usize>)
    requires
        p <= s.len(),
    ensures
        pos_of(r) == sp_keyword(s@, p as int),
        r matches Some(q) ==> p < q <= s.len(),
{
    let e = keyword_end(s, p);
    if e > p {
        Some(e)
    } else {
        None
    }
}

/// At least one ASCII letter.
fn alpha1(s: &Vec<char>, p: usize) -> (r: Option<usize>)
    requires
        p <= s.len(),
    ensures
        pos_of(r) == sp_alpha1(s@, p as int),
        r matches Some(q) ==> p < q <= s.len(),
{
    let e = alpha_end(s, p);
    if e > p {
        Some(e)
    } else {
        None
    }
}

/// The literal `t` at `p`.
fn lit(s: &Vec<char>, p: usize, t: &Vec<char>) -> (r: Option<usize>)
    requires
        p <= s.len(),
    ensures
        pos_of(r) == spec_tag(s@, p as int, t@),
        r matches Some(q) ==> p + t.len() == q <= s.len(),
{
    tag(s, p, t)
}

/// The literal `t`, with the multispace around it.
fn ws_tag(s: &Vec<char>, p: usize, t: &Vec<char>) -> (r: Option<usize>)
    requires
        p <= s.len(),
    ensures
        pos_of(r) == sp_ws_tag(s@, p as int, t@),
        r matches Some(q) ==> p + t.len() <= q <= s.len(),
{
    let a = multispace0(s, p);
    match lit(s, a, t) {
        Some(b) => Some(multispace0(s, b)),
        None => None,
    }
}

/// The literal `t`, ignoring the case of ASCII letters in the input.
fn tag_no_case(s: &Vec<char>, p: usize, t: &Vec<char>) -> (r: Option<usize>)
    requires
        p <= s.len(),
    ensures
        pos_of(r) == sp_tag_no_case(s@, p as int, t@),
        r matches Some(q) ==> p + t.len() == q <= s.len(),
{
    if t.len() > s.len() - p {
        return None;
    }
    let mut i: usize = 0;
    while i < t.len()
        invariant
            p + t.len() <= s.len(),
            i <= t.len(),
            forall|j: int| 0 <= j < i ==> same_ignoring_case(#[trigger] s@[p + j], t@[j]),
        decreases t.len() - i,
    {
        let c = s[p + i];
        let u = t[i];
        if !(c == u || ('A' <= c && c <= 'Z' && (c as u32) + 32 == u as u32)) {
            assert(!same_ignoring_case(s@[p + i], t@[i as int]));
            return None;
        }
        i += 1;
    }
    Some(p + t.len())
}

/// An unsigned decimal number that fits in a `u32`.
fn integer(s: &Vec<char>, p: usize) -> (r: Option<(usize, u32)>)
    requires
        p <= s.len(),
    ensures
        match r {
            Some((q, n)) => sp_integer(s@, p as int) == Some((q as int, n)),
            None => sp_integer(s@, p as int) is None,
        },
        r matches Some((q, n)) ==> p < q <= s.len(),
{
    match parse_u64(s, p) {
        Some((e, v)) => if v <= u32::MAX as u64 {
            Some((e, v as u32))
        } else {
            None
        },
        None => None,
    }
}

/// `integer` with the multispace around it.
fn ws_integer(s: &Vec<char>, p: usize) -> (r: Option<(usize, u32)>)
    requires
        p <= s.len(),
    ensures
        match r {
            Some((q, n)) => sp_ws_integer(s@, p as int) == Some((q as int, n)),
            None => sp_ws_integer(s@, p as int) is None,
        },
        r matches Some((q, n)) ==> p < q <= s.len(),
{
    let a = multispace0(s, p);
    match integer(s, a) {
        Some((e, v)) => Some((multispace0(s, e), v)),
        None => None,
    }
}

/// `min, max` or a single `n`.
fn range(s: &Vec<char>, p: usize) -> (r: Option<(usize, u32, u32)>)
    requires
        p <= s.len(),
    ensures
        match r {
            Some((q, a, b)) => sp_range(s@, p as int) == Some((q as int, a, b)),
            None => sp_range(s@, p as int) is None,
        },
        r matches Some((q, a, b)) ==> p < q <= s.len(),
{
    match ws_integer(s, p) {
        None => None,
        Some((q, n)) => match ws_tag(s, q, &chars1(',')) {
            Some(r) => match ws_integer(s, r) {
                Some((t, m)) => Some((t, n, m)),
                None => Some((q, n, n)),
            },
            None => Some((q, n, n)),
        },
    }
}

/// Parses a `{min, max}` multiplier.
fn parse_curly_braces_multiplier(s: &Vec<char>, p: usize) -> (r: Option<(usize, SyntaxComponentMultiplier)>)
    requires
        p <= s.len(),
    ensures
        match r {
            Some((q, m)) => sp_curly_multiplier(s@, p as int) == Some((q as int, m)),
            None => sp_curly_multiplier(s@, p as int) is None,
        },
        r matches Some((q, m)) ==> p < q <= s.len(),
{
    match lit(s, p, &chars1('{')) {
        Some(q) => match range(s, q) {
            Some((r, a, b)) => match lit(s, r, &chars1('}')) {
                Some(t) => Some((t, SyntaxComponentMultiplier::Between(a as usize, b as usize))),
                None => None,
            },
            None => None,
        },
        None => None,
    }
}

/// Parses a `#`, `#{n}` or `#{min, max}` multiplier.
fn parse_comma_separated_multiplier(s: &Vec<char>, p: usize) -> (r: Option<(usize, SyntaxComponentMultiplier)>)
    requires
        p <= s.len(),
    ensures
        match r {
            Some((q, m)) => sp_comma_multiplier(s@, p as int) == Some((q as int, m)),
            None => sp_comma_multiplier(s@, p as int) is None,
        },
        r matches Some((q, m)) ==> p < q <= s.len(),
{
    let braced = match ws_tag(s, p, &chars2('#', '{')) {
        Some(q) => match range(s, q) {
            Some((r, a, b)) => match ws_tag(s, r, &chars1('}')) {
                Some(t) => Some((t, SyntaxComponentMultiplier::CommaSeparatedRepeat(a as usize, b as usize))),
                None => None,
            },
            None => None,
        },
        None => None,
    };
    match braced {
        Some(x) => Some(x),
        None => match ws_tag(s, p, &chars1('#')) {
            Some(q) => Some((q, SyntaxComponentMultiplier::CommaSeparatedRepeat(1, 1))),
            None => None,
        },
    }
}

/// Parses the optional multiplier of a component; `Once` where there is none.
fn parse_multipliers(s: &Vec<char>, p: usize) -> (r: (usize, SyntaxComponentMultiplier))
    requires
        p <= s.len(),
    ensures
        sp_multipliers(s@, p as int) == (r.0 as int, r.1),
        p <= r.0 <= s.len(),
{
    if at(s, p, '*') {
        (p + 1, SyntaxComponentMultiplier::ZeroOrMore)
    } else if at(s, p, '+') {
        (p + 1, SyntaxComponentMultiplier::OneOrMore)
    } else if at(s, p, '?') {
        (p + 1, SyntaxComponentMultiplier::Optional)
    } else if at(s, p, '!') {
        (p + 1, SyntaxComponentMultiplier::AtLeastOneValue)
    } else {
        match parse_comma_separated_multiplier(s, p) {
            Some(x) => x,
            None => match parse_curly_braces_multiplier(s, p) {
                Some(x) => x,
                None => (p, SyntaxComponentMultiplier::Once),
            },
        }
    }
}

/// The end of the digits and decimal point of a number (after its optional sign).
pub fn mantissa_end(s: &Vec<char>, p: usize) -> (r: Option<usize>)
    requires
        p <= s.len(),
    ensures
        pos_of(r) == sp_mantissa_end(s@, p as int),
        r matches Some(m) ==> p < m <= s.len(),
{
    let p0 = if at(s, p, '+') || at(s, p, '-') {
        p + 1
    } else {
        p
    };
    let d = digit_end(s, p0);
    if d > p0 {
        if at(s, d, '.') {
            Some(digit_end(s, d + 1))
        } else {
            Some(d)
        }
    } else if at(s, p0, '.') && digit_end(s, p0 + 1) > p0 + 1 {
        Some(digit_end(s, p0 + 1))
    } else {
        None
    }
}

/// A decimal number with an optional exponent.
pub fn decimal(s: &Vec<char>, p: usize) -> (r: Result<usize, Halt>)
    requires
        p <= s.len(),
    ensures
        unit_outcome(r) == sp_decimal(s@, p as int),
        r matches Ok(q) ==> p < q <= s.len(),
{
    match mantissa_end(s, p) {
        None => Err(Halt::Rejected),
        Some(m) => if at(s, m, 'e') || at(s, m, 'E') {
            let e1 = if at(s, m + 1, '+') || at(s, m + 1, '-') {
                m + 2
            } else {
                m + 1
            };
            let d = digit_end(s, e1);
            if d > e1 {
                Ok(d)
            } else {
                Err(Halt::Aborted)
            }
        } else {
            Ok(m)
        },
    }
}

/// A floating point number, `nan` or `inf`.
fn float(s: &Vec<char>, p: usize) -> (r: Result<usize, Halt>)
    requires
        p <= s.len(),
    ensures
        unit_outcome(r) == sp_float(s@, p as int),
        r matches Ok(q) ==> p < q <= s.len(),
{
    match decimal(s, p) {
        Err(Halt::Rejected) => match tag_no_case(s, p, &chars3('n', 'a', 'n')) {
            Some(q) => Ok(q),
            None => match tag_no_case(s, p, &chars3('i', 'n', 'f')) {
                Some(q) => Ok(q),
                None => Err(Halt::Rejected),
            },
        },
        other => other,
    }
}

/// Whether the number at `p` is a decimal number whose digits are all zero.
pub fn float_is_zero(s: &Vec<char>, p: usize) -> (r: bool)
    requires
        p <= s.len(),
    ensures
        r == sp_float_is_zero(s@, p as int),
{
    if decimal(s, p).is_err() {
        return false;
    }
    match mantissa_end(s, p) {
        None => false,
        Some(m) => {
            let mut i = p;
            while i < m
                invariant
                    p <= i <= m <= s.len(),
                    sp_mantissa_end(s@, p as int) == Some(m as int),
                    sp_decimal(s@, p as int) is Parsed,
                    forall|k: int| p <= k < i ==> !('1' <= #[trigger] s@[k] && s@[k] <= '9'),
                decreases m - i,
            {
                if '1' <= s[i] && s[i] <= '9' {
                    assert(sp_mantissa_end(s@, p as int) == Some(m as int));
                    assert('1' <= s@[i as int] && s@[i as int] <= '9');
                    return false;
                }
                i += 1;
            }
            true
        },
    }
}

/// A number with a unit, or a zero without one.
fn unit_at(s: &Vec<char>, p: usize) -> (r: Result<(usize, SyntaxComponent), Halt>)
    requires
        p <= s.len(),
    ensures
        outcome_of(r) == sp_unit(s@, p as int),
        r matches Ok((q, c)) ==> p < q <= s.len(),
{
    match float(s, p) {
        Ok(e) => match alpha1(s, e) {
            Some(f) => {
                let number = Number { text: string_of(sub_chars(s, p, e).as_slice()) };
                let unit = string_of(sub_chars(s, e, f).as_slice());
                Ok((f, SyntaxComponent::Value { value: CssValue::Unit(number, unit), multiplier: SyntaxComponentMultiplier::Once }))
            },
            None => if float_is_zero(s, p) {
                Ok((e, SyntaxComponent::Value { value: CssValue::Zero, multiplier: SyntaxComponentMultiplier::Once }))
            } else {
                Err(Halt::Rejected)
            },
        },
        Err(h) => Err(h),
    }
}

/// `strings_view` of a vector after a push.
proof fn lemma_strings_view_push(v: Seq<String>, x: String)
    ensures
        strings_view(v.push(x)) == strings_view(v).push(x@),
{
    assert(strings_view(v.push(x)) =~= strings_view(v).push(x@));
}

/// The string holding `s[from..to]`.
fn substring(s: &Vec<char>, from: usize, to: usize) -> (r: String)
    requires
        from <= to <= s.len(),
    ensures
        r@ == s@.subrange(from as int, to as int),
{
    string_of(sub_chars(s, from, to).as_slice())
}

/// Words of letters separated by `|`, possibly none.
fn alpha_list(s: &Vec<char>, p: usize) -> (r: (usize, Vec<String>))
    requires
        p <= s.len(),
    ensures
        sp_alpha_list(s@, p as int) == (r.0 as int, strings_view(r.1@)),
        p <= r.0 <= s.len(),
{
    match alpha1(s, p) {
        None => {
            assert(strings_view(Seq::<String>::empty()) =~= Seq::<Seq<char>>::empty());
            (p, Vec::new())
        },
        Some(q) => {
            let mut v: Vec<String> = Vec::new();
            let w = substring(s, p, q);
            proof { lemma_strings_view_push(v@, w); }
            v.push(w);
            assert(strings_view(v@) =~= seq![s@.subrange(p as int, q as int)]);
            let mut i = q;
            loop
                invariant
                    p < i <= s.len(),
                    sp_alpha_list(s@, p as int) == sp_alpha_list_rest(s@, i as int, strings_view(v@)),
                ensures
                    p < i <= s.len(),
                    sp_alpha_list(s@, p as int) == (i as int, strings_view(v@)),
                decreases s.len() - i,
            {
                match ws_tag(s, i, &chars1('|')) {
                    None => break,
                    Some(j) => match alpha1(s, j) {
                        None => break,
                        Some(k) => {
                            let w = substring(s, j, k);
                            proof { lemma_strings_view_push(v@, w); }
                            v.push(w);
                            i = k;
                        },
                    },
                }
            }
            (i, v)
        },
    }
}

/// The inside of `unit( .. )`.
fn parse_unit_inner(s: &Vec<char>, p: usize) -> (r: (usize, SyntaxComponent))
    requires
        p <= s.len(),
    ensures
        sp_unit_inner(s@, p as int) == (r.0 as int, r.1@),
        p <= r.0 <= s.len(),
{
    let (p1, from) = match integer(s, p) {
        Some((q, n)) => (q, Some(n)),
        None => (p, None),
    };
    let paired = match lit(s, p1, &chars2('.', '.')) {
        Some(p2) => match integer(s, p2) {
            Some((p3, m)) => Some((p3, from, Some(m))),
            None => Some((p2, from, None)),
        },
        None => None,
    };
    let (pr, from, to) = match paired {
        Some(x) => x,
        None => match integer(s, p) {
            Some((q, n)) => (q, Some(n), None),
            None => (p, None, None),
        },
    };
    let a = multispace0(s, pr);
    let (r, units) = alpha_list(s, a);
    (r, SyntaxComponent::Unit { from, to, unit: units, multiplier: SyntaxComponentMultiplier::Once })
}

/// Parses `unit( .. )`.
fn parse_unit_function(s: &Vec<char>, p: usize) -> (r: Result<(usize, SyntaxComponent), Halt>)
    requires
        p <= s.len(),
    ensures
        outcome_of(r) == sp_unit_function(s@, p as int),
        r matches Ok((q, c)) ==> p < q <= s.len(),
{
    let open = vec!['u', 'n', 'i', 't', '('];
    assert(open@ =~= seq!['u', 'n', 'i', 't', '(']);
    match lit(s, p, &open) {
        None => Err(Halt::Rejected),
        Some(q) => {
            let (r, c) = parse_unit_inner(s, q);
            match lit(s, r, &chars1(')')) {
                Some(t) => Ok((t, c)),
                None => Err(Halt::Rejected),
            }
        },
    }
}

/// Parses a quoted property name.
fn parse_property(s: &Vec<char>, p: usize) -> (r: Result<(usize, SyntaxComponent), Halt>)
    requires
        p <= s.len(),
    ensures
        outcome_of(r) == sp_property(s@, p as int),
        r matches Ok((q, c)) ==> p < q <= s.len(),
        r is Err ==> r == Err::<(usize, SyntaxComponent), Halt>(Halt::Rejected),
{
    match lit(s, p, &chars1('\'')) {
        None => Err(Halt::Rejected),
        Some(q) => match keyword(s, q) {
            None => Err(Halt::Rejected),
            Some(r) => match lit(s, r, &chars1('\'')) {
                Some(t) => Ok((t, SyntaxComponent::Property { property: substring(s, q, r), multiplier: SyntaxComponentMultiplier::Once })),
                None => Err(Halt::Rejected),
            },
        },
    }
}

/// Parses `inherit`, `initial` or `unset`.
fn parse_specific_keyword(s: &Vec<char>, p: usize) -> (r: Result<(usize, SyntaxComponent), Halt>)
    requires
        p <= s.len(),
    ensures
        outcome_of(r) == sp_specific_keyword(s@, p as int),
        r matches Ok((q, c)) ==> p < q <= s.len(),
{
    let inherit = vec!['i', 'n', 'h', 'e', 'r', 'i', 't'];
    assert(inherit@ =~= seq!['i', 'n', 'h', 'e', 'r', 'i', 't']);
    let initial = vec!['i', 'n', 'i', 't', 'i', 'a', 'l'];
    assert(initial@ =~= seq!['i', 'n', 'i', 't', 'i', 'a', 'l']);
    let unset = vec!['u', 'n', 's', 'e', 't'];
    assert(unset@ =~= seq!['u', 'n', 's', 'e', 't']);
    match lit(s, p, &inherit) {
        Some(q) => Ok((q, SyntaxComponent::Inherit { multiplier: SyntaxComponentMultiplier::Once })),
        None => match lit(s, p, &initial) {
            Some(q) => Ok((q, SyntaxComponent::Initial { multiplier: SyntaxComponentMultiplier::Once })),
            None => match lit(s, p, &unset) {
                Some(q) => Ok((q, SyntaxComponent::Unset { multiplier: SyntaxComponentMultiplier::Once })),
                None => Err(Halt::Rejected),
            },
        },
    }
}

/// Parses a literal: `/`, `,` or text between single quotes.
fn parse_literal(s: &Vec<char>, p: usize) -> (r: Result<(usize, SyntaxComponent), Halt>)
    requires
        p <= s.len(),
    ensures
        outcome_of(r) == sp_literal(s@, p as int),
        r matches Ok((q, c)) ==> p < q <= s.len(),
{
    match ws_tag(s, p, &chars1('/')) {
        Some(q) => {
            let l = substring(&chars1('/'), 0, 1);
            assert(l@ =~= seq!['/']);
            Ok((q, SyntaxComponent::Literal { literal: l, multiplier: SyntaxComponentMultiplier::Once }))
        },
        None => match ws_tag(s, p, &chars1(',')) {
            Some(q) => {
                let l = substring(&chars1(','), 0, 1);
                assert(l@ =~= seq![',']);
                Ok((q, SyntaxComponent::Literal { literal: l, multiplier: SyntaxComponentMultiplier::Once }))
            },
            None => match lit(s, p, &chars1('\'')) {
                None => Err(Halt::Rejected),
                Some(q) => {
                    let r = unquoted_end(s, q);
                    match lit(s, r, &chars1('\'')) {
                        Some(t) => Ok((t, SyntaxComponent::Literal { literal: substring(s, q, r), multiplier: SyntaxComponentMultiplier::Once })),
                        None => Err(Halt::Rejected),
                    }
                },
            },
        },
    }
}

/// Parses an infinity: `inf`, `∞`, `-inf` or `-∞`.
fn parse_infinity(s: &Vec<char>, p: usize) -> (r: Option<(usize, NumberOrInfinity)>)
    requires
        p <= s.len(),
    ensures
        match r {
            Some((q, n)) => sp_infinity(s@, p as int) == Some((q as int, n)),
            None => sp_infinity(s@, p as int) is None,
        },
        r matches Some((q, n)) ==> p < q <= s.len(),
{
    let minus_inf = vec!['-', 'i', 'n', 'f'];
    assert(minus_inf@ =~= seq!['-', 'i', 'n', 'f']);
    match tag_no_case(s, p, &chars3('i', 'n', 'f')) {
        Some(q) => Some((q, NumberOrInfinity::Infinity)),
        None => match tag_no_case(s, p, &chars1('∞')) {
            Some(q) => Some((q, NumberOrInfinity::Infinity)),
            None => match tag_no_case(s, p, &minus_inf) {
                Some(q) => Some((q, NumberOrInfinity::NegativeInfinity)),
                None => match tag_no_case(s, p, &chars2('-', '∞')) {
                    Some(q) => Some((q, NumberOrInfinity::NegativeInfinity)),
                    None => None,
                },
            },
        },
    }
}

/// Parses an integer with an optional minus sign.
fn parse_signed_integer(s: &Vec<char>, p: usize) -> (r: Option<(usize, NumberOrInfinity)>)
    requires
        p <= s.len(),
    ensures
        match r {
            Some((q, n)) => sp_signed_integer(s@, p as int) == Some((q as int, n)),
            None => sp_signed_integer(s@, p as int) is None,
        },
        r matches Some((q, n)) ==> p < q <= s.len(),
{
    let negative = at(s, p, '-');
    let p1 = if negative {
        p + 1
    } else {
        p
    };
    match parse_u64(s, p1) {
        Some((e, v)) => if v <= i64::MAX as u64 {
            let n: i64 = if negative {
                -(v as i64)
            } else {
                v as i64
            };
            Some((e, NumberOrInfinity::FiniteI64(n)))
        } else {
            None
        },
        None => None,
    }
}

/// One end of a range, with the multispace around it.
fn range_bound(s: &Vec<char>, p: usize) -> (r: Option<(usize, NumberOrInfinity)>)
    requires
        p <= s.len(),
    ensures
        match r {
            Some((q, n)) => sp_range_bound(s@, p as int) == Some((q as int, n)),
            None => sp_range_bound(s@, p as int) is None,
        },
        r matches Some((q, n)) ==> p < q <= s.len(),
{
    let a = multispace0(s, p);
    let v = match parse_infinity(s, a) {
        Some(x) => Some(x),
        None => parse_signed_integer(s, a),
    };
    match v {
        Some((b, n)) => Some((multispace0(s, b), n)),
        None => None,
    }
}

/// Parses the range of a type definition: `[min, max]`.
fn typedef_range(s: &Vec<char>, p: usize) -> (r: Option<(usize, RangeType)>)
    requires
        p <= s.len(),
    ensures
        match r {
            Some((q, t)) => sp_typedef_range(s@, p as int) == Some((q as int, t)),
            None => sp_typedef_range(s@, p as int) is None,
        },
        r matches Some((q, t)) ==> p < q <= s.len(),
{
    match ws_tag(s, p, &chars1('[')) {
        None => None,
        Some(q) => {
            let (q1, min) = match range_bound(s, q) {
                Some((e, n)) => (e, n),
                None => (q, NumberOrInfinity::Unbounded),
            };
            match lit(s, q1, &chars1(',')) {
                None => None,
                Some(q2) => {
                    let (q3, max) = match range_bound(s, q2) {
                        Some((e, n)) => (e, n),
                        None => (q2, NumberOrInfinity::Unbounded),
                    };
                    match ws_tag(s, q3, &chars1(']')) {
                        Some(q4) => Some((q4, RangeType { min, max })),
                        None => None,
                    }
                },
            }
        },
    }
}

/// A keyword, followed by `()` where that is written.
fn keyword_or_function(s: &Vec<char>, p: usize) -> (r: Option<usize>)
    requires
        p <= s.len(),
    ensures
        pos_of(r) == sp_keyword_or_function(s@, p as int),
        r matches Some(q) ==> p < q <= s.len(),
{
    match keyword(s, p) {
        None => None,
        Some(k) => match lit(s, k, &chars2('(', ')')) {
            Some(r) => Some(r),
            None => Some(k),
        },
    }
}

/// The name of a type definition and its optional range.
fn typedef_name(s: &Vec<char>, p: usize, quoted: bool) -> (r: Option<(usize, String, RangeType)>)
    requires
        p <= s.len(),
    ensures
        match r {
            Some((q, n, t)) => sp_typedef_name(s@, p as int, quoted) == Some((q as int, n@, t)),
            None => sp_typedef_name(s@, p as int, quoted) is None,
        },
        r matches Some((q, n, t)) ==> p < q <= s.len(),
{
    let name = if quoted {
        match ws_tag(s, p, &chars1('\'')) {
            Some(a) => match keyword_or_function(s, a) {
                Some(b) => match ws_tag(s, b, &chars1('\'')) {
                    Some(c) => Some((c, substring(s, a, b))),
                    None => None,
                },
                None => None,
            },
            None => None,
        }
    } else {
        match keyword_or_function(s, p) {
            Some(b) => Some((b, substring(s, p, b))),
            None => None,
        }
    };
    match name {
        None => None,
        Some((c, n)) => match typedef_range(s, c) {
            Some((d, t)) => Some((d, n, t)),
            None => Some((c, n, RangeType::empty())),
        },
    }
}

/// Parses a type definition: `<name>`, `<name()>` or `<'name'>`, each with an optional range.
fn parse_typedef(s: &Vec<char>, p: usize) -> (r: Result<(usize, SyntaxComponent), Halt>)
    requires
        p <= s.len(),
    ensures
        outcome_of(r) == sp_typedef(s@, p as int),
        r matches Ok((q, c)) ==> p < q <= s.len(),
{
    match ws_tag(s, p, &chars1('<')) {
        None => Err(Halt::Rejected),
        Some(q) => {
            let inner = match typedef_name(s, q, false) {
                Some((e, n, t)) => Some((e, n, false, t)),
                None => match typedef_name(s, q, true) {
                    Some((e, n, t)) => Some((e, n, true, t)),
                    None => None,
                },
            };
            match inner {
                None => Err(Halt::Rejected),
                Some((e, n, quoted, t)) => match ws_tag(s, e, &chars1('>')) {
                    Some(end) => Ok((end, SyntaxComponent::TypeDefinition { definition: n, quoted, range: t, multiplier: SyntaxComponentMultiplier::Once })),
                    None => Err(Halt::Rejected),
                },
            }
        },
    }
}

/// Parses a keyword that stands for itself.
fn parse_generic_keyword(s: &Vec<char>, p: usize) -> (r: Result<(usize, SyntaxComponent), Halt>)
    requires
        p <= s.len(),
    ensures
        outcome_of(r) == sp_generic_keyword(s@, p as int),
        r matches Ok((q, c)) ==> p < q <= s.len(),
{
    match keyword(s, p) {
        Some(q) => Ok((q, SyntaxComponent::GenericKeyword { keyword: substring(s, p, q), multiplier: SyntaxComponentMultiplier::Once })),
        None => Err(Halt::Rejected),
    }
}

/// `()` with spaces or tabs around and inside it.
fn empty_arglist(s: &Vec<char>, p: usize) -> (r: Option<usize>)
    requires
        p <= s.len(),
    ensures
        pos_of(r) == sp_empty_arglist(s@, p as int),
        r matches Some(q) ==> p < q <= s.len(),
{
    let a = space_end(s, p);
    if at(s, a, '(') {
        let b1 = space_end(s, a + 1);
        let b2 = space_end(s, b1);
        let b = space_end(s, b2);
        if at(s, b, ')') {
            Some(space_end(s, b + 1))
        } else {
            None
        }
    } else {
        None
    }
}

/// The value of a component with a new multiplier.
pub proof fn lemma_view_with_multiplier(c: SyntaxComponent, m: SyntaxComponentMultiplier)
    ensures
        component_view(with_multiplier(c, m)) == view_with_multiplier(component_view(c), m),
{
}

/// The separator of a level.
fn separator_chars(l: Level) -> (v: Vec<char>)
    ensures
        v@ == level_separator(l),
{
    match l {
        Level::Bar => chars1('|'),
        Level::DoubleBar => chars2('|', '|'),
        Level::DoubleAmpersand => chars2('&', '&'),
    }
}

/// The combinator of the group that a level builds.
fn combinator_of(l: Level) -> (k: GroupCombinators)
    ensures
        k == level_combinator(l),
{
    match l {
        Level::Bar => GroupCombinators::ExactlyOne,
        Level::DoubleBar => GroupCombinators::AtLeastOneAnyOrder,
        Level::DoubleAmpersand => GroupCombinators::AllAnyOrder,
    }
}

/// The single component of `v`, or a group of all of them.
fn single_or_group_of(v: Vec<SyntaxComponent>, k: GroupCombinators) -> (c: SyntaxComponent)
    requires
        v.len() >= 1,
    ensures
        c@ == single_or_group(components_view(v@), k),
{
    proof { lemma_components_view(v@); }
    if v.len() == 1 {
        let mut v = v;
        let c = v.pop().unwrap();
        c
    } else {
        SyntaxComponent::Group { components: v, combinator: k, multiplier: SyntaxComponentMultiplier::Once }
    }
}

/// Parses a group: a component list between `[` and `]`.
fn parse_group(s: &Vec<char>, p: usize) -> (r: Result<(usize, SyntaxComponent), Halt>)
    requires
        p <= s.len(),
    ensures
        outcome_of(r) == sp_group(s@, p as int),
        r matches Ok((q, c)) ==> p < q <= s.len(),
    decreases s.len() - p, 0int,
{
    match ws_tag(s, p, &chars1('[')) {
        None => Err(Halt::Rejected),
        Some(q) => match parse_component_list(s, q) {
            Ok((r, c)) => match ws_tag(s, r, &chars1(']')) {
                Some(t) => Ok((t, c)),
                None => Err(Halt::Rejected),
            },
            Err(h) => Err(h),
        },
    }
}

/// Parses a function: a keyword followed by `()`, or by a component list in parentheses.
fn parse_function(s: &Vec<char>, p: usize) -> (r: Result<(usize, SyntaxComponent), Halt>)
    requires
        p <= s.len(),
    ensures
        outcome_of(r) == sp_function(s@, p as int),
        r matches Ok((q, c)) ==> p < q <= s.len(),
    decreases s.len() - p, 0int,
{
    match keyword(s, p) {
        None => Err(Halt::Rejected),
        Some(q) => match empty_arglist(s, q) {
            Some(e) => {
                let f = SyntaxComponent::Function { name: substring(s, p, q), arguments: Vec::new(), multiplier: SyntaxComponentMultiplier::Once };
                assert(components_view(Seq::<SyntaxComponent>::empty()) =~= Seq::<ComponentView>::empty());
                Ok((e, f))
            },
            None => match ws_tag(s, q, &chars1('(')) {
                None => Err(Halt::Rejected),
                Some(a) => {
                    let b = multispace0(s, a);
                    match parse_component_list(s, b) {
                        Ok((c, arg)) => {
                            let d = multispace0(s, c);
                            match ws_tag(s, d, &chars1(')')) {
                                Some(e) => {
                                    let mut arguments: Vec<SyntaxComponent> = Vec::new();
                                    proof { lemma_components_view_push(arguments@, arg); }
                                    arguments.push(arg);
                                    assert(components_view(Seq::<SyntaxComponent>::empty()) =~= Seq::<ComponentView>::empty());
                                    Ok((e, SyntaxComponent::Function { name: substring(s, p, q), arguments, multiplier: SyntaxComponentMultiplier::Once }))
                                },
                                None => Err(Halt::Rejected),
                            }
                        },
                        Err(h) => Err(h),
                    }
                },
            },
        },
    }
}

/// The first kind of component that matches at `p`.
fn parse_alternatives(s: &Vec<char>, p: usize) -> (r: Result<(usize, SyntaxComponent), Halt>)
    requires
        p <= s.len(),
    ensures
        outcome_of(r) == sp_alternatives(s@, p as int),
        r matches Ok((q, c)) ==> p < q <= s.len(),
    decreases s.len() - p, 1int,
{
    let r = parse_unit_function(s, p);
    if !matches!(r, Err(Halt::Rejected)) {
        return r;
    }
    let r = parse_function(s, p);
    if !matches!(r, Err(Halt::Rejected)) {
        return r;
    }
    let r = parse_property(s, p);
    if !matches!(r, Err(Halt::Rejected)) {
        return r;
    }
    let r = parse_specific_keyword(s, p);
    if !matches!(r, Err(Halt::Rejected)) {
        return r;
    }
    let r = parse_literal(s, p);
    if !matches!(r, Err(Halt::Rejected)) {
        return r;
    }
    let r = parse_group(s, p);
    if !matches!(r, Err(Halt::Rejected)) {
        return r;
    }
    let r = unit_at(s, p);
    if !matches!(r, Err(Halt::Rejected)) {
        return r;
    }
    let r = parse_typedef(s, p);
    if !matches!(r, Err(Halt::Rejected)) {
        return r;
    }
    parse_generic_keyword(s, p)
}

/// Parses a component with its multiplier.
fn parse_component(s: &Vec<char>, p: usize) -> (r: Result<(usize, SyntaxComponent), Halt>)
    requires
        p <= s.len(),
    ensures
        outcome_of(r) == sp_component(s@, p as int),
        r matches Ok((q, c)) ==> p < q <= s.len(),
    decreases s.len() - p, 2int,
{
    match parse_alternatives(s, p) {
        Ok((q, c)) => {
            let (r, m) = parse_multipliers(s, q);
            let ghost c0 = c;
            let mut c = c;
            c.update_multiplier(m);
            proof { lemma_view_with_multiplier(c0, m); }
            Ok((r, c))
        },
        Err(h) => Err(h),
    }
}

/// Parses an element of a list of level `l`.
fn parse_element(s: &Vec<char>, p: usize, l: Level) -> (r: Result<(usize, SyntaxComponent), Halt>)
    requires
        p <= s.len(),
    ensures
        outcome_of(r) == sp_element(s@, p as int, l),
        r matches Ok((q, c)) ==> p < q <= s.len(),
    decreases s.len() - p, level_rank(l) - 1,
{
    match l {
        Level::Bar => parse_component(s, p),
        Level::DoubleBar => parse_level(s, p, Level::Bar),
        Level::DoubleAmpersand => parse_level(s, p, Level::DoubleBar),
    }
}

/// Parses a list of level `l`: elements separated by the level's separator.
fn parse_level(s: &Vec<char>, p: usize, l: Level) -> (r: Result<(usize, SyntaxComponent), Halt>)
    requires
        p <= s.len(),
    ensures
        outcome_of(r) == sp_level(s@, p as int, l),
        r matches Ok((q, c)) ==> p < q <= s.len(),
    decreases s.len() - p, level_rank(l),
{
    match parse_element(s, p, l) {
        Err(h) => Err(h),
        Ok((q, c)) => {
            let ghost first = c@;
            let mut v: Vec<SyntaxComponent> = Vec::new();
            proof { lemma_components_view_push(v@, c); }
            v.push(c);
            assert(components_view(Seq::<SyntaxComponent>::empty()) =~= Seq::<ComponentView>::empty());
            assert(components_view(v@) =~= seq![first]);
            let sep = separator_chars(l);
            let mut i = q;
            loop
                invariant
                    p < i <= s.len(),
                    v.len() >= 1,
                    sep@ == level_separator(l),
                    sp_level(s@, p as int, l) == finish_list(sp_level_rest(s@, i as int, l, components_view(v@)), level_combinator(l)),
                ensures
                    p < i <= s.len(),
                    v.len() >= 1,
                    sp_level(s@, p as int, l) == Outcome::Parsed(i as int, single_or_group(components_view(v@), level_combinator(l))),
                decreases s.len() - i,
            {
                match ws_tag(s, i, &sep) {
                    None => break,
                    Some(j) => match parse_element(s, j, l) {
                        Err(Halt::Rejected) => break,
                        Err(Halt::Aborted) => return Err(Halt::Aborted),
                        Ok((k, c)) => {
                            proof { lemma_components_view_push(v@, c); }
                            v.push(c);
                            i = k;
                        },
                    },
                }
            }
            Ok((i, single_or_group_of(v, combinator_of(l))))
        },
    }
}

/// Parses a component list: `&&` lists one after the other, each after a run of `|`, `&`
/// and white space.
fn parse_component_list(s: &Vec<char>, p: usize) -> (r: Result<(usize, SyntaxComponent), Halt>)
    requires
        p <= s.len(),
    ensures
        outcome_of(r) == sp_list(s@, p as int),
        r matches Ok((q, c)) ==> p < q <= s.len(),
    decreases s.len() - p, 10int,
{
    match parse_level(s, p, Level::DoubleAmpersand) {
        Err(h) => Err(h),
        Ok((q, c)) => {
            let ghost first = c@;
            let mut v: Vec<SyntaxComponent> = Vec::new();
            proof { lemma_components_view_push(v@, c); }
            v.push(c);
            assert(components_view(Seq::<SyntaxComponent>::empty()) =~= Seq::<ComponentView>::empty());
            assert(components_view(v@) =~= seq![first]);
            let mut i = q;
            loop
                invariant
                    p < i <= s.len(),
                    v.len() >= 1,
                    sp_list(s@, p as int) == finish_list(sp_list_rest(s@, i as int, components_view(v@)), GroupCombinators::Juxtaposition),
                ensures
                    p < i <= s.len(),
                    v.len() >= 1,
                    sp_list(s@, p as int) == Outcome::Parsed(i as int, single_or_group(components_view(v@), GroupCombinators::Juxtaposition)),
                decreases s.len() - i,
            {
                if i == s.len() {
                    break;
                }
                let j = separator_end(s, i);
                let k = whitespace_end(s, j);
                if k == s.len() {
                    break;
                }
                match parse_level(s, k, Level::DoubleAmpersand) {
                    Err(Halt::Rejected) => break,
                    Err(Halt::Aborted) => return Err(Halt::Aborted),
                    Ok((r, c)) => {
                        proof { lemma_components_view_push(v@, c); }
                        v.push(c);
                        i = r;
                    },
                }
            }
            Ok((i, single_or_group_of(v, GroupCombinators::Juxtaposition)))
        },
    }
}

/// The outcome of a parser of text that reads a component: what is left of the text, and
/// the component.
pub open spec fn text_outcome(input: Seq<char>, r: Result<(String, SyntaxComponent), Halt>, o: Outcome<ComponentView>) -> bool {
    match r {
        Ok((rest, c)) => o matches Outcome::Parsed(q, v) && 0 <= q <= input.len() && rest@ == input.subrange(q, input.len() as int) && c@ == v,
        Err(Halt::Rejected) => o is Rejected,
        Err(Halt::Aborted) => o is Aborted,
    }
}

/// Parses a whole syntax: multispace, then a component list. Gives back the text left over
/// and the component.
pub fn parse(input: &str) -> (r: Result<(String, SyntaxComponent), Halt>)
    ensures
        text_outcome(input@, r, sp_parse(input@)),
{
    let s = chars_of(input);
    let q = multispace0(&s, 0);
    match parse_component_list(&s, q) {
        Ok((e, c)) => Ok((substring(&s, e, s.len()), c)),
        Err(h) => Err(h),
    }
}

/// Parses a number with a unit (`10px`), or a zero without one. Gives back the text left
/// over and the value.
pub fn parse_unit(input: &str) -> (r: Result<(String, SyntaxComponent), Halt>)
    ensures
        text_outcome(input@, r, sp_unit(input@, 0)),
{
    let s = chars_of(input);
    match unit_at(&s, 0) {
        Ok((e, c)) => Ok((substring(&s, e, s.len()), c)),
        Err(h) => Err(h),
    }
}

// ---------------------------------------------------------------------------------------
// Multipliers read back as they are written.

/// The decimal digit of `d < 10` is a digit worth `d`.
proof fn lemma_digit_char(d: nat)
    requires
        d < 10,
    ensures
        is_digit(digit_char(d)),
        digit_char(d) as nat - '0' as nat == d,
{
}

/// The decimal notation of `n` is a non-empty run of digits worth `n`.
proof fn lemma_decimal_chars(n: nat)
    ensures
        decimal_chars(n).len() >= 1,
        forall|i: int| 0 <= i < decimal_chars(n).len() ==> is_digit(#[trigger] decimal_chars(n)[i]),
        decimal_value(decimal_chars(n)) == n,
    decreases n,
{
    let d = decimal_chars(n);
    if n < 10 {
        lemma_digit_char(n);
        assert(d.drop_last() =~= Seq::<char>::empty());
        assert(decimal_value(d.drop_last()) == 0);
        assert(d.last() == digit_char(n));
        assert(decimal_value(d) == decimal_value(d.drop_last()) * 10 + (d.last() as nat - '0' as nat) as nat);
    } else {
        lemma_decimal_chars(n / 10);
        lemma_digit_char(n % 10);
        assert(d == decimal_chars(n / 10).push(digit_char(n % 10)));
        assert(d.drop_last() =~= decimal_chars(n / 10));
        assert(d.last() == digit_char(n % 10));
        assert(decimal_value(d) == decimal_value(d.drop_last()) * 10 + (d.last() as nat - '0' as nat) as nat);
        assert(decimal_value(d) == (n / 10) * 10 + n % 10);
        assert forall|i: int| 0 <= i < d.len() implies is_digit(#[trigger] d[i]) by {
            if i < d.len() - 1 {
                assert(d[i] == decimal_chars(n / 10)[i]);
            }
        }
    }
}

/// The run of digits from `p` ends where the digits end.
proof fn lemma_digits_end_exact(s: Seq<char>, p: int, q: int)
    requires
        0 <= p <= q <= s.len(),
        forall|k: int| p <= k < q ==> is_digit(#[trigger] s[k]),
        q == s.len() || !is_digit(s[q]),
    ensures
        digits_end(s, p) == q,
    decreases q - p,
{
    if p < q {
        lemma_digits_end_exact(s, p + 1, q);
    }
}

/// A number written in decimal at `p`, followed by something other than a digit, reads back.
proof fn lemma_integer_reads(s: Seq<char>, p: int, n: nat)
    requires
        n <= u32::MAX,
        0 <= p,
        p + decimal_chars(n).len() <= s.len(),
        s.subrange(p, p + decimal_chars(n).len()) == decimal_chars(n),
        p + decimal_chars(n).len() == s.len() || !is_digit(s[p + decimal_chars(n).len()]),
    ensures
        sp_integer(s, p) == Some((p + decimal_chars(n).len(), n as u32)),
{
    let l = decimal_chars(n).len() as int;
    lemma_decimal_chars(n);
    assert forall|k: int| p <= k < p + l implies is_digit(#[trigger] s[k]) by {
        assert(s[k] == s.subrange(p, p + l)[k - p]);
    }
    lemma_digits_end_exact(s, p, p + l);
}

/// The text of a range, `{min, max}`, at `p` reads back as the range.
proof fn lemma_range_reads(s: Seq<char>, p: int, a: nat, b: nat)
    requires
        a <= u32::MAX,
        b <= u32::MAX,
        0 <= p,
        p + 4 + decimal_chars(a).len() + decimal_chars(b).len() <= s.len(),
        s.subrange(p, p + 4 + decimal_chars(a).len() + decimal_chars(b).len()) == seq!['{'] + decimal_chars(a) + seq![',', ' '] + decimal_chars(b) + seq!['}'],
    ensures
        sp_range(s, p + 1) == Some((p + 3 + decimal_chars(a).len() + decimal_chars(b).len(), a as u32, b as u32)),
        s[p] == '{',
        s[p + 3 + decimal_chars(a).len() + decimal_chars(b).len()] == '}',
{
    let la = decimal_chars(a).len() as int;
    let lb = decimal_chars(b).len() as int;
    let t = seq!['{'] + decimal_chars(a) + seq![',', ' '] + decimal_chars(b) + seq!['}'];
    lemma_decimal_chars(a);
    lemma_decimal_chars(b);
    assert forall|k: int| 0 <= k < t.len() implies s[p + k] == #[trigger] t[k] by {
        assert(s.subrange(p, p + t.len())[k] == s[p + k]);
    }
    assert(t[0] == '{');
    assert(t[1 + la] == ',');
    assert(t[2 + la] == ' ');
    assert(t[3 + la + lb] == '}');
    assert(t[1] == decimal_chars(a)[0]);
    assert(t[3 + la] == decimal_chars(b)[0]);
    assert(s.subrange(p + 1, p + 1 + la) =~= decimal_chars(a)) by {
        assert forall|k: int| 0 <= k < la implies s.subrange(p + 1, p + 1 + la)[k] == decimal_chars(a)[k] by {
            assert(t[1 + k] == decimal_chars(a)[k]);
        }
    }
    assert(s.subrange(p + 3 + la, p + 3 + la + lb) =~= decimal_chars(b)) by {
        assert forall|k: int| 0 <= k < lb implies s.subrange(p + 3 + la, p + 3 + la + lb)[k] == decimal_chars(b)[k] by {
            assert(t[3 + la + k] == decimal_chars(b)[k]);
        }
    }
    assert(s[p + 1] == decimal_chars(a)[0]);
    assert(s[p + 3 + la] == decimal_chars(b)[0]);
    lemma_integer_reads(s, p + 1, a);
    lemma_integer_reads(s, p + 3 + la, b);
    let q = p + 1 + la;
    assert(is_digit(s[p + 1]));
    assert(skip_multispace(s, p + 1) == p + 1);
    assert(s[q] == ',');
    assert(skip_multispace(s, q) == q);
    assert(sp_ws_integer(s, p + 1) == Some((q, a as u32)));
    assert(s.subrange(q, q + 1) =~= seq![',']);
    assert(spec_tag(s, q, seq![',']) == Some(q + 1));
    assert(is_digit(s[q + 2]));
    assert(skip_multispace(s, q + 2) == q + 2);
    assert(s[q + 1] == ' ');
    assert(skip_multispace(s, q + 1) == q + 2);
    assert(sp_ws_tag(s, q, seq![',']) == Some(q + 2));
    assert(s[q + 2 + lb] == '}');
    assert(skip_multispace(s, q + 2 + lb) == q + 2 + lb);
    assert(sp_ws_integer(s, q + 2) == Some((q + 2 + lb, b as u32)));
}

/// `{min, max}` reads back as a range.
#[verifier::rlimit(40)]
proof fn lemma_between_reads(a: usize, b: usize)
    requires
        a <= u32::MAX,
        b <= u32::MAX,
    ensures
        sp_multipliers(range_chars(a, b), 0) == (range_chars(a, b).len() as int, SyntaxComponentMultiplier::Between(a, b)),
{
    let s = range_chars(a, b);
    let la = decimal_chars(a as nat).len() as int;
    let lb = decimal_chars(b as nat).len() as int;
    lemma_decimal_chars(a as nat);
    lemma_decimal_chars(b as nat);
    assert(s.len() == 4 + la + lb);
    assert(s.subrange(0, s.len() as int) =~= s);
    lemma_range_reads(s, 0, a as nat, b as nat);
    assert(s[0] == '{');
    assert(skip_multispace(s, 0) == 0);
    assert(s.subrange(0, 2)[0] != seq!['#', '{'][0]);
    assert(spec_tag(s, 0, seq!['#', '{']) is None);
    assert(sp_ws_tag(s, 0, seq!['#', '{']) is None);
    assert(s.subrange(0, 1)[0] != seq!['#'][0]);
    assert(spec_tag(s, 0, seq!['#']) is None);
    assert(sp_ws_tag(s, 0, seq!['#']) is None);
    assert(sp_comma_multiplier(s, 0) is None);
    assert(s.subrange(0, 1) =~= seq!['{']);
    assert(spec_tag(s, 0, seq!['{']) == Some(1int));
    assert(s.subrange(3 + la + lb, 4 + la + lb) =~= seq!['}']);
    assert(spec_tag(s, 3 + la + lb, seq!['}']) == Some(4 + la + lb));
    assert(sp_curly_multiplier(s, 0) == Some((4 + la + lb, SyntaxComponentMultiplier::Between(a, b))));
}

/// `#{min, max}` reads back as a comma-separated repeat.
proof fn lemma_comma_repeat_reads(a: usize, b: usize)
    requires
        a <= u32::MAX,
        b <= u32::MAX,
    ensures
        sp_multipliers(seq!['#'] + range_chars(a, b), 0) == ((seq!['#'] + range_chars(a, b)).len() as int, SyntaxComponentMultiplier::CommaSeparatedRepeat(a, b)),
{
    let s = seq!['#'] + range_chars(a, b);
    let la = decimal_chars(a as nat).len() as int;
    let lb = decimal_chars(b as nat).len() as int;
    lemma_decimal_chars(a as nat);
    lemma_decimal_chars(b as nat);
    assert(s.len() == 5 + la + lb);
    assert(s.subrange(1, s.len() as int) =~= range_chars(a, b));
    lemma_range_reads(s, 1, a as nat, b as nat);
    assert(s[0] == '#');
    assert(skip_multispace(s, 0) == 0);
    assert(s.subrange(0, 2) =~= seq!['#', '{']);
    assert(spec_tag(s, 0, seq!['#', '{']) == Some(2int));
    assert(is_digit(s[2]));
    assert(skip_multispace(s, 2) == 2);
    assert(sp_ws_tag(s, 0, seq!['#', '{']) == Some(2int));
    let e = 4 + la + lb;
    assert(s[e] == '}');
    assert(skip_multispace(s, e) == e);
    assert(s.subrange(e, e + 1) =~= seq!['}']);
    assert(spec_tag(s, e, seq!['}']) == Some(e + 1));
    assert(skip_multispace(s, e + 1) == e + 1);
    assert(sp_ws_tag(s, e, seq!['}']) == Some(e + 1));
    assert(sp_comma_multiplier(s, 0) == Some((e + 1, SyntaxComponentMultiplier::CommaSeparatedRepeat(a, b))));
}

/// Law: the text that `to_css_string` writes for a multiplier reads back as that multiplier
/// (for ranges whose bounds fit in a `u32`, as the syntax reads them).
pub proof fn lemma_multiplier_round_trip(m: SyntaxComponentMultiplier)
    requires
        m matches SyntaxComponentMultiplier::Between(a, b) ==> a <= u32::MAX && b <= u32::MAX,
        m matches SyntaxComponentMultiplier::CommaSeparatedRepeat(a, b) ==> a <= u32::MAX && b <= u32::MAX,
    ensures
        sp_multipliers(multiplier_chars(m), 0) == (multiplier_chars(m).len() as int, m),
{
    match m {
        SyntaxComponentMultiplier::Between(a, b) => lemma_between_reads(a, b),
        SyntaxComponentMultiplier::CommaSeparatedRepeat(a, b) => lemma_comma_repeat_reads(a, b),
        _ => {},
    }
}

/// A single number in braces, `{n}`, at `p` reads as the range from `n` to `n`.
proof fn lemma_single_range_reads(s: Seq<char>, p: int, n: nat)
    requires
        n <= u32::MAX,
        0 <= p,
        p + 2 + decimal_chars(n).len() <= s.len(),
        s.subrange(p, p + 2 + decimal_chars(n).len()) == seq!['{'] + decimal_chars(n) + seq!['}'],
    ensures
        sp_range(s, p + 1) == Some((p + 1 + decimal_chars(n).len(), n as u32, n as u32)),
        s[p] == '{',
        s[p + 1 + decimal_chars(n).len()] == '}',
{
    let l = decimal_chars(n).len() as int;
    let t = seq!['{'] + decimal_chars(n) + seq!['}'];
    lemma_decimal_chars(n);
    assert forall|k: int| 0 <= k < t.len() implies s[p + k] == #[trigger] t[k] by {
        assert(s.subrange(p, p + t.len())[k] == s[p + k]);
    }
    assert(t[0] == '{');
    assert(t[1 + l] == '}');
    assert(t[1] == decimal_chars(n)[0]);
    assert(s.subrange(p + 1, p + 1 + l) =~= decimal_chars(n)) by {
        assert forall|k: int| 0 <= k < l implies s.subrange(p + 1, p + 1 + l)[k] == decimal_chars(n)[k] by {
            assert(t[1 + k] == decimal_chars(n)[k]);
        }
    }
    assert(s[p + 1] == decimal_chars(n)[0]);
    lemma_integer_reads(s, p + 1, n);
    let q = p + 1 + l;
    assert(is_digit(s[p + 1]));
    assert(skip_multispace(s, p + 1) == p + 1);
    assert(s[q] == '}');
    assert(skip_multispace(s, q) == q);
    assert(sp_ws_integer(s, p + 1) == Some((q, n as u32)));
    assert(s.subrange(q, q + 1)[0] != seq![','][0]);
    assert(spec_tag(s, q, seq![',']) is None);
    assert(sp_ws_tag(s, q, seq![',']) is None);
}

/// Law: a multiplier with a single number, `{n}`, reads as exactly `n` repetitions, as
/// `{n, n}` does; and `#{n}` as exactly `n` comma-separated repetitions.
pub proof fn law_single_number_multiplier(n: usize)
    requires
        n <= u32::MAX,
    ensures
        sp_multipliers(seq!['{'] + decimal_chars(n as nat) + seq!['}'], 0) == (
            decimal_chars(n as nat).len() + 2int,
            SyntaxComponentMultiplier::Between(n, n),
        ),
        sp_multipliers(seq!['#', '{'] + decimal_chars(n as nat) + seq!['}'], 0) == (
            decimal_chars(n as nat).len() + 3int,
            SyntaxComponentMultiplier::CommaSeparatedRepeat(n, n),
        ),
{
    let l = decimal_chars(n as nat).len() as int;
    lemma_decimal_chars(n as nat);
    let s = seq!['{'] + decimal_chars(n as nat) + seq!['}'];
    assert(s.len() == 2 + l);
    assert(s.subrange(0, s.len() as int) =~= s);
    lemma_single_range_reads(s, 0, n as nat);
    assert(skip_multispace(s, 0) == 0);
    assert(s.subrange(0, 2)[0] != seq!['#', '{'][0]);
    assert(spec_tag(s, 0, seq!['#', '{']) is None);
    assert(sp_ws_tag(s, 0, seq!['#', '{']) is None);
    assert(s.subrange(0, 1)[0] != seq!['#'][0]);
    assert(spec_tag(s, 0, seq!['#']) is None);
    assert(sp_ws_tag(s, 0, seq!['#']) is None);
    assert(sp_comma_multiplier(s, 0) is None);
    assert(s.subrange(0, 1) =~= seq!['{']);
    assert(spec_tag(s, 0, seq!['{']) == Some(1int));
    assert(s.subrange(1 + l, 2 + l) =~= seq!['}']);
    assert(spec_tag(s, 1 + l, seq!['}']) == Some(2 + l));
    assert(sp_curly_multiplier(s, 0) == Some((2 + l, SyntaxComponentMultiplier::Between(n, n))));

    let c = seq!['#', '{'] + decimal_chars(n as nat) + seq!['}'];
    assert(c.len() == 3 + l);
    assert(c.subrange(1, c.len() as int) =~= s);
    lemma_single_range_reads(c, 1, n as nat);
    assert(c[0] == '#');
    assert(skip_multispace(c, 0) == 0);
    assert(c.subrange(0, 2) =~= seq!['#', '{']);
    assert(spec_tag(c, 0, seq!['#', '{']) == Some(2int));
    assert(is_digit(c[2]));
    assert(skip_multispace(c, 2) == 2);
    assert(sp_ws_tag(c, 0, seq!['#', '{']) == Some(2int));
    let e = 2 + l;
    assert(c[e] == '}');
    assert(skip_multispace(c, e) == e);
    assert(c.subrange(e, e + 1) =~= seq!['}']);
    assert(spec_tag(c, e, seq!['}']) == Some(e + 1));
    assert(skip_multispace(c, e + 1) == e + 1);
    assert(sp_ws_tag(c, e, seq!['}']) == Some(e + 1));
    assert(sp_comma_multiplier(c, 0) == Some((e + 1, SyntaxComponentMultiplier::CommaSeparatedRepeat(n, n))));
}

} // verus!
