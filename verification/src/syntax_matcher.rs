//! Matching CSS values against the syntax tree of a property.
//!
//! A component is matched against the front of a list of values; what it does not consume is
//! handed back as the remainder. The specification below is a function of the values and the
//! component; `None` stands for an input on which matching does not come back with a result
//! (a component kind or built-in type that is not handled, a function with arguments, or a
//! repetition that never consumes anything and never stops).
use vstd::prelude::*;
use crate::css_colors::{color_table, find_color, get_hex_color_from_name};
use crate::css_value::{
    copy_values, lemma_values_view, lemma_values_view_add, lemma_values_view_push, same_value, value_view, values_view, CssValue,
    CssValueView,
};
use crate::scan::parse_u64;
use crate::text::{chars_eq, chars_of, string_eq};
use crate::scan::{decimal_value, digits_end, is_digit, spec_u64};
use crate::syntax::{
    component_view, components_view, lemma_components_view, multiplier_of, strings_view, ComponentView, GroupCombinators, RangeType, SyntaxComponent,
    SyntaxComponentMultiplier,
};
use crate::syntax_parser::{
    decimal, digit_end, float_is_zero, mantissa_end, sp_decimal, sp_float_is_zero, sp_mantissa_end,
    Outcome,
};

verus! {

/// A tree of CSS syntax components that values can be matched against.
#[derive(Debug, PartialEq)]
pub struct CssSyntaxTree {
    /// The components of the syntax tree
    pub components: Vec<SyntaxComponent>,
}

impl CssSyntaxTree {
    /// Creates a new CSS Syntax tree from the given components
    pub fn new(components: Vec<SyntaxComponent>) -> (t: Self)
        ensures
            t.components@ == components@,
    {
        CssSyntaxTree { components }
    }

    /// The values of the components.
    pub open spec fn view_components(&self) -> Seq<ComponentView> {
        components_view(self.components@)
    }
}

/// The result of matching, as a mathematical value.
pub struct MatchView {
    /// The values that were not consumed
    pub remainder: Seq<CssValueView>,
    /// Whether the component matched
    pub matched: bool,
    /// The values that were matched
    pub matched_values: Seq<CssValueView>,
}

/// How far the multiplier of a component is fulfilled after a number of matches.
#[derive(Debug, Clone, Copy, PartialEq, Eq, Structural)]
pub enum Fulfillment {
    /// The multiplier is not yet fulfilled. There must be more values
    NotYetFulfilled,
    /// The multiplier is fulfilled. There cannot be any more values
    Fulfilled,
    /// The multiplied is fulfilled, but there may be more values added
    FulfilledButMoreAllowed,
    /// The multiplier is not fulfilled (ie: too many values).
    NotFulfilled,
}

/// How far the multiplier `m` is fulfilled after `cnt` matches.
pub open spec fn fulfillment(m: SyntaxComponentMultiplier, cnt: int) -> Fulfillment {
    match m {
        SyntaxComponentMultiplier::Once => if cnt == 0 {
            Fulfillment::NotYetFulfilled
        } else if cnt == 1 {
            Fulfillment::Fulfilled
        } else {
            Fulfillment::NotFulfilled
        },
        SyntaxComponentMultiplier::ZeroOrMore => Fulfillment::FulfilledButMoreAllowed,
        SyntaxComponentMultiplier::OneOrMore => if cnt == 0 {
            Fulfillment::NotYetFulfilled
        } else {
            Fulfillment::FulfilledButMoreAllowed
        },
        SyntaxComponentMultiplier::Optional => if cnt == 0 {
            Fulfillment::FulfilledButMoreAllowed
        } else if cnt == 1 {
            Fulfillment::Fulfilled
        } else {
            Fulfillment::NotFulfilled
        },
        SyntaxComponentMultiplier::Between(from, to) => if cnt < from {
            Fulfillment::NotYetFulfilled
        } else if cnt <= to {
            Fulfillment::FulfilledButMoreAllowed
        } else {
            Fulfillment::NotFulfilled
        },
        SyntaxComponentMultiplier::AtLeastOneValue => if cnt == 0 {
            Fulfillment::NotYetFulfilled
        } else {
            Fulfillment::FulfilledButMoreAllowed
        },
        SyntaxComponentMultiplier::CommaSeparatedRepeat(from, to) => if cnt < from {
            Fulfillment::NotYetFulfilled
        } else if cnt <= to {
            Fulfillment::FulfilledButMoreAllowed
        } else {
            Fulfillment::NotFulfilled
        },
    }
}

/// The multiplier of a component value.
pub open spec fn view_multiplier(c: ComponentView) -> SyntaxComponentMultiplier {
    match c {
        ComponentView::GenericKeyword(_, m) => m,
        ComponentView::Property(_, m) => m,
        ComponentView::Function(_, _, m) => m,
        ComponentView::TypeDefinition(_, _, _, m) => m,
        ComponentView::Inherit(m) => m,
        ComponentView::Initial(m) => m,
        ComponentView::Unset(m) => m,
        ComponentView::Literal(_, m) => m,
        ComponentView::Value(_, m) => m,
        ComponentView::Group(_, _, m) => m,
        ComponentView::Unit(_, _, _, m) => m,
        ComponentView::Scalar(_, m) => m,
    }
}

/// Nothing matched; the input stays.
pub open spec fn no_match_view(input: Seq<CssValueView>) -> MatchView {
    MatchView { remainder: input, matched: false, matched_values: Seq::empty() }
}

/// The first value matched.
pub open spec fn first_match_view(input: Seq<CssValueView>) -> MatchView {
    MatchView { remainder: input.drop_first(), matched: true, matched_values: seq![input[0]] }
}

// ---------------------------------------------------------------------------------------
// Text comparisons.

/// The code of `c` with ASCII upper-case letters folded to lower case.
pub open spec fn ascii_fold(c: char) -> int {
    if 'A' <= c && c <= 'Z' {
        (c as u32) as int + 32
    } else {
        (c as u32) as int
    }
}

/// `a` and `b` are equal up to the case of ASCII letters (`eq_ignore_ascii_case`).
pub open spec fn eq_ignore_case(a: Seq<char>, b: Seq<char>) -> bool {
    a.len() == b.len() && forall|i: int| 0 <= i < a.len() ==> ascii_fold(#[trigger] a[i]) == ascii_fold(b[i])
}

/// Some element of `list` equals `s` up to ASCII case.
pub open spec fn contains_ignore_case(list: Seq<Seq<char>>, s: Seq<char>) -> bool {
    exists|i: int| 0 <= i < list.len() && eq_ignore_case(#[trigger] list[i], s)
}

/// The units of lengths.
pub open spec fn length_units() -> Seq<Seq<char>> {
    seq![
        "cap"@, "ch"@, "em"@, "ex"@, "ic"@, "lh"@, "rcap"@, "rch"@, "rem"@, "rex"@, "ric"@,
        "rlh"@, "vh"@, "vw"@, "vmax"@, "vmin"@, "vb"@, "vi"@, "cqw"@, "cqh"@, "cqi"@, "cqb"@,
        "cqmin"@, "cqmax"@, "px"@, "cm"@, "mm"@, "Q"@, "in"@, "pc"@, "pt"@,
    ]
}

/// The units of angles.
pub open spec fn angle_units() -> Seq<Seq<char>> {
    seq!["deg"@, "grad"@, "rad"@, "turn"@]
}

/// The system color keywords.
pub open spec fn system_colors() -> Seq<Seq<char>> {
    seq![
        "AccentColor"@, "AccentColorText"@, "ActiveText"@, "ButtonBorder"@, "ButtonFace"@,
        "ButtonText"@, "Canvas"@, "CanvasText"@, "Field"@, "FieldText"@, "GrayText"@,
        "Highlight"@, "HighlightText"@, "LinkText"@, "Mark"@, "MarkText"@, "SelectedItem"@,
        "SelectedItemText"@, "VisitedText"@, "ActiveBorder"@, "ActiveCaption"@,
        "AppWorkspace"@, "Background"@, "ButtonHighlight"@, "ButtonShadow"@, "CaptionText"@,
        "InactiveBorder"@, "InactiveCaption"@, "InactiveCaptionText"@, "InfoBackground"@,
        "InfoText"@, "Menu"@, "MenuText"@, "Scrollbar"@, "ThreeDDarkShadow"@, "ThreeDFace"@,
        "ThreeDHighlight"@, "ThreeDLightShadow"@, "ThreeDShadow"@, "Window"@, "WindowFrame"@,
        "WindowText"@,
    ]
}

// ---------------------------------------------------------------------------------------
// Numbers as written.

/// The text is a number whose digits are all zero (`0`, `-0.0`, `0e3`, ...).
pub open spec fn number_is_zero(t: Seq<char>) -> bool {
    sp_decimal(t, 0) == Outcome::Parsed(t.len() as int, ()) && sp_float_is_zero(t, 0)
}

/// The text is a plain decimal number: an optional sign, digits and an optional decimal point.
pub open spec fn plain_decimal(t: Seq<char>) -> bool {
    sp_mantissa_end(t, 0) == Some(t.len() as int)
}

/// Where the digits of a plain decimal number start.
pub open spec fn digits_start(t: Seq<char>) -> int {
    if t.len() > 0 && (t[0] == '-' || t[0] == '+') {
        1
    } else {
        0
    }
}

/// The plain decimal number is negative (it has a minus sign and a digit other than zero).
pub open spec fn decimal_negative(t: Seq<char>) -> bool {
    t.len() > 0 && t[0] == '-' && !sp_float_is_zero(t, 0)
}

/// The integer part of a plain decimal number, without its sign.
pub open spec fn decimal_integer_part(t: Seq<char>) -> nat {
    decimal_value(t.subrange(digits_start(t), digits_end(t, digits_start(t))))
}

/// The fraction of a plain decimal number is zero.
pub open spec fn decimal_fraction_zero(t: Seq<char>) -> bool {
    forall|i: int| digits_end(t, digits_start(t)) <= i < t.len() ==> (#[trigger] t[i] == '.' || t[i] == '0')
}

/// The number `t` is at least the bound (no bound: `t` is a plain decimal number).
pub open spec fn at_least(t: Seq<char>, bound: Option<u32>) -> bool {
    plain_decimal(t) && match bound {
        None => true,
        Some(k) => if decimal_negative(t) {
            false
        } else if t.len() > 0 && t[0] == '-' {
            k == 0
        } else {
            decimal_integer_part(t) >= k
        },
    }
}

/// The number `t` is at most the bound (no bound: `t` is a plain decimal number).
pub open spec fn at_most(t: Seq<char>, bound: Option<u32>) -> bool {
    plain_decimal(t) && match bound {
        None => true,
        Some(k) => decimal_negative(t) || (t.len() > 0 && t[0] == '-') || decimal_integer_part(t) < k || (
        decimal_integer_part(t) == k && decimal_fraction_zero(t)),
    }
}

// ---------------------------------------------------------------------------------------
// Matching.

/// Matches the first value against a built-in type; `None` for a type that is not handled.
pub open spec fn builtin_matches(datatype: Seq<char>, v: CssValueView) -> Option<bool> {
    if datatype == "percentage"@ {
        Some(v is Percentage)
    } else if datatype == "angle"@ {
        Some(v is Zero || (v matches CssValueView::Unit(_, u) && contains_ignore_case(angle_units(), u)))
    } else if datatype == "length"@ {
        Some(v is Zero || (v matches CssValueView::Unit(_, u) && length_units().contains(u)))
    } else if datatype == "system-color"@ {
        Some(v matches CssValueView::String(s) && contains_ignore_case(system_colors(), s))
    } else if datatype == "named-color"@ {
        Some(v matches CssValueView::String(s) && find_color(color_table(), s) is Some)
    } else if datatype == "color()"@ || datatype == "hex-color"@ {
        Some(v is Color || (v matches CssValueView::String(s) && s.len() > 0 && s[0] == '#'))
    } else {
        None
    }
}

/// Matches the first value of a non-empty input against a component that is not a group.
pub open spec fn single_match(input: Seq<CssValueView>, c: ComponentView) -> Option<MatchView> {
    let v = input[0];
    let answer = |b: bool| if b {
        Some(first_match_view(input))
    } else {
        Some(no_match_view(input))
    };
    match c {
        ComponentView::GenericKeyword(k, _) => answer(
            (v is NoneValue && eq_ignore_case(k, "none"@)) || (v matches CssValueView::String(s) && eq_ignore_case(s, k)),
        ),
        ComponentView::TypeDefinition(d, quoted, _, _) => if quoted {
            None
        } else {
            match builtin_matches(d, v) {
                Some(b) => answer(b),
                None => None,
            }
        },
        ComponentView::Inherit(_) => answer(
            v is Inherit || (v matches CssValueView::String(s) && eq_ignore_case(s, "inherit"@)),
        ),
        ComponentView::Initial(_) => answer(
            v is Initial || (v matches CssValueView::String(s) && eq_ignore_case(s, "initial"@)),
        ),
        ComponentView::Unset(_) => answer(v matches CssValueView::String(s) && eq_ignore_case(s, "unset"@)),
        ComponentView::Unit(from, to, units, _) => answer(
            (v matches CssValueView::Number(n) && number_is_zero(n)) || (v matches CssValueView::Unit(n, u)
                && units.contains(u) && at_least(n, from) && at_most(n, to)),
        ),
        ComponentView::Literal(l, _) => answer(v matches CssValueView::String(s) && eq_ignore_case(s, l)),
        ComponentView::Function(name, _, _) => match v {
            CssValueView::Function(cname, args) => if !eq_ignore_case(name, cname) {
                Some(no_match_view(input))
            } else if args.len() == 0 {
                Some(first_match_view(input))
            } else {
                None
            },
            _ => Some(no_match_view(input)),
        },
        ComponentView::Value(css, _) => answer(same_value(v, css)),
        _ => None,
    }
}

/// The result when a component keeps matching without consuming anything: counting on, the
/// multiplier ends up not fulfilled, or (for unbounded multipliers) matching never ends.
pub open spec fn stalled(input: Seq<CssValueView>, c: ComponentView) -> Option<MatchView> {
    match view_multiplier(c) {
        SyntaxComponentMultiplier::ZeroOrMore => None,
        SyntaxComponentMultiplier::OneOrMore => None,
        SyntaxComponentMultiplier::AtLeastOneValue => None,
        _ => Some(no_match_view(input)),
    }
}

/// Matches a component against the input.
pub open spec fn match_component_spec(input: Seq<CssValueView>, c: ComponentView) -> Option<MatchView>
    decreases c, 3int, 0int, 0int,
{
    component_loop(input, c, 0, Seq::empty())
}

/// The matching loop of a component, after `count` matches that matched `acc`.
pub open spec fn component_loop(input: Seq<CssValueView>, c: ComponentView, count: int, acc: Seq<CssValueView>) -> Option<MatchView>
    decreases c, 2int, input.len(), 0int,
{
    if input.len() == 0 {
        let f = fulfillment(view_multiplier(c), 0);
        if f == Fulfillment::Fulfilled || f == Fulfillment::FulfilledButMoreAllowed {
            Some(MatchView { remainder: Seq::empty(), matched: true, matched_values: Seq::empty() })
        } else {
            Some(no_match_view(input))
        }
    } else {
        let r = if c is Group {
            group_match(input, c)
        } else {
            single_match(input, c)
        };
        match r {
            None => None,
            Some(res) => if res.matched {
                let count2 = count + 1;
                let acc2 = acc + res.matched_values;
                match fulfillment(view_multiplier(c), count2) {
                    Fulfillment::NotYetFulfilled => if res.remainder.len() < input.len() {
                        component_loop(res.remainder, c, count2, acc2)
                    } else {
                        stalled(input, c)
                    },
                    Fulfillment::FulfilledButMoreAllowed => if res.remainder.len() == 0 {
                        Some(MatchView { remainder: res.remainder, matched: true, matched_values: acc2 })
                    } else if res.remainder.len() < input.len() {
                        component_loop(res.remainder, c, count2, acc2)
                    } else {
                        stalled(input, c)
                    },
                    Fulfillment::Fulfilled => Some(MatchView { remainder: res.remainder, matched: true, matched_values: acc2 }),
                    Fulfillment::NotFulfilled => Some(no_match_view(input)),
                }
            } else {
                match fulfillment(view_multiplier(c), count) {
                    Fulfillment::NotYetFulfilled => Some(res),
                    Fulfillment::Fulfilled => Some(res),
                    Fulfillment::FulfilledButMoreAllowed => Some(
                        MatchView { remainder: input, matched: true, matched_values: acc },
                    ),
                    Fulfillment::NotFulfilled => Some(no_match_view(input)),
                }
            },
        }
    }
}

/// Matches a group against the input, by its combinator.
pub open spec fn group_match(input: Seq<CssValueView>, c: ComponentView) -> Option<MatchView>
    decreases c, 1int, 0int, 0int,
{
    match c {
        ComponentView::Group(cs, k, _) => match k {
            GroupCombinators::Juxtaposition => juxtaposition_from(input, cs, 0, Seq::empty()),
            GroupCombinators::AllAnyOrder => any_order_from(input, cs, 0, no_flags(cs.len()), 0, Seq::empty(), true),
            GroupCombinators::AtLeastOneAnyOrder => any_order_from(input, cs, 0, no_flags(cs.len()), 0, Seq::empty(), false),
            GroupCombinators::ExactlyOne => exactly_one_from(input, cs, 0, None),
        },
        _ => None,
    }
}

/// Juxtaposition from the `i`-th component on: each component in turn, on what the previous
/// ones left.
pub open spec fn juxtaposition_from(input: Seq<CssValueView>, cs: Seq<ComponentView>, i: int, values: Seq<CssValueView>) -> Option<MatchView>
    decreases cs, 0int, cs.len() - i, 0int,
{
    if i < 0 || i >= cs.len() {
        Some(MatchView { remainder: input, matched: true, matched_values: values })
    } else {
        match match_component_spec(input, cs[i]) {
            None => None,
            Some(res) => if res.matched {
                juxtaposition_from(res.remainder, cs, i + 1, values + res.matched_values)
            } else {
                Some(no_match_view(input))
            },
        }
    }
}

/// Exactly one: every component is tried on the whole input; the first of those that matched
/// with the shortest remainder wins.
pub open spec fn exactly_one_from(input: Seq<CssValueView>, cs: Seq<ComponentView>, i: int, best: Option<MatchView>) -> Option<MatchView>
    decreases cs, 0int, cs.len() - i, 0int,
{
    if input.len() == 0 {
        Some(no_match_view(input))
    } else if i < 0 || i >= cs.len() {
        match best {
            None => Some(no_match_view(input)),
            Some(b) => Some(MatchView { remainder: b.remainder, matched: true, matched_values: b.matched_values }),
        }
    } else {
        match match_component_spec(input, cs[i]) {
            None => None,
            Some(res) => {
                let best2 = if res.matched {
                    match best {
                        None => Some(res),
                        Some(b) => if res.remainder.len() < b.remainder.len() {
                            Some(res)
                        } else {
                            best
                        },
                    }
                } else {
                    best
                };
                exactly_one_from(input, cs, i + 1, best2)
            },
        }
    }
}

/// No component has matched yet.
pub open spec fn no_flags(n: nat) -> Seq<bool> {
    Seq::new(n, |i: int| false)
}

/// The first component at or after `i` that has not matched yet (or the end).
pub open spec fn next_unmatched(flags: Seq<bool>, i: int) -> int
    decreases flags.len() - i,
{
    if 0 <= i < flags.len() && flags[i] {
        next_unmatched(flags, i + 1)
    } else {
        i
    }
}

/// The number of components that have not matched yet.
pub open spec fn unmatched_count(flags: Seq<bool>) -> nat
    decreases flags.len(),
{
    if flags.len() == 0 {
        0
    } else {
        unmatched_count(flags.drop_last()) + if flags.last() {
            0nat
        } else {
            1nat
        }
    }
}

/// `next_unmatched` moves forward and stops at an unmatched component or at the end.
pub proof fn lemma_next_unmatched(flags: Seq<bool>, i: int)
    requires
        0 <= i,
    ensures
        i <= next_unmatched(flags, i),
        next_unmatched(flags, i) <= flags.len() || next_unmatched(flags, i) == i,
        next_unmatched(flags, i) < flags.len() ==> !flags[next_unmatched(flags, i)],
        forall|k: int| i <= k < next_unmatched(flags, i) ==> flags[k],
    decreases flags.len() - i,
{
    if 0 <= i < flags.len() && flags[i] {
        lemma_next_unmatched(flags, i + 1);
    }
}

/// Marking an unmatched component as matched lowers the count of unmatched ones by one.
pub proof fn lemma_unmatched_count_mark(flags: Seq<bool>, i: int)
    requires
        0 <= i < flags.len(),
        !flags[i],
    ensures
        unmatched_count(flags.update(i, true)) + 1 == unmatched_count(flags),
    decreases flags.len(),
{
    let g = flags.update(i, true);
    if i == flags.len() - 1 {
        assert(g.drop_last() =~= flags.drop_last());
    } else {
        lemma_unmatched_count_mark(flags.drop_last(), i);
        assert(g.drop_last() =~= flags.drop_last().update(i, true));
    }
}

/// Any order (`&&` when `all`, `||` otherwise): components are tried from `c_idx` on, skipping
/// those that matched; after a match the search starts over at the first unmatched one.
pub open spec fn any_order_from(
    input: Seq<CssValueView>,
    cs: Seq<ComponentView>,
    c_idx: int,
    flags: Seq<bool>,
    count: int,
    values: Seq<CssValueView>,
    all: bool,
) -> Option<MatchView>
    decreases cs, 0int, unmatched_count(flags), cs.len() + 1 - c_idx,
{
    if c_idx < 0 || c_idx >= cs.len() || flags.len() != cs.len() || flags[c_idx] || input.len() == 0 {
        if (all && count != cs.len()) || (!all && count == 0) {
            Some(no_match_view(input))
        } else {
            Some(MatchView { remainder: input, matched: true, matched_values: values })
        }
    } else {
        match match_component_spec(input, cs[c_idx]) {
            None => None,
            Some(res) => if res.matched {
                let flags2 = flags.update(c_idx, true);
                proof {
                    lemma_unmatched_count_mark(flags, c_idx);
                    lemma_next_unmatched(flags2, 0);
                }
                any_order_from(res.remainder, cs, next_unmatched(flags2, 0), flags2, count + 1, values + res.matched_values, all)
            } else {
                proof {
                    lemma_next_unmatched(flags, c_idx + 1);
                }
                any_order_from(input, cs, next_unmatched(flags, c_idx + 1), flags, count, values, all)
            },
        }
    }
}

/// Whether the values match the tree: its single root component matches them all.
pub open spec fn tree_matches(components: Seq<ComponentView>, input: Seq<CssValueView>) -> Option<bool> {
    match match_component_spec(input, components[0]) {
        Some(r) => Some(r.matched && r.remainder.len() == 0),
        None => None,
    }
}

// =======================================================================================
// Executable matching.

/// Structure to return from a matching function.
#[derive(Debug)]
pub struct MatchResult {
    /// The remainder of the values that are not matched.
    pub remainder: Vec<CssValue>,
    /// True when this matched did some matching
    pub matched: bool,
    /// List of the matched values
    pub matched_values: Vec<CssValue>,
}

impl View for MatchResult {
    type V = MatchView;

    open spec fn view(&self) -> MatchView {
        MatchView {
            remainder: values_view(self.remainder@),
            matched: self.matched,
            matched_values: values_view(self.matched_values@),
        }
    }
}

/// The multiplier of a component is that of its value.
proof fn lemma_view_multiplier(c: SyntaxComponent)
    ensures
        view_multiplier(component_view(c)) == multiplier_of(c),
{
}

/// Returns how far the multiplier of the component is fulfilled after `cnt` matches.
pub fn multiplier_fulfilled(component: &SyntaxComponent, cnt: usize) -> (f: Fulfillment)
    ensures
        f == fulfillment(view_multiplier(component@), cnt as int),
{
    proof { lemma_view_multiplier(*component); }
    match component.get_multiplier() {
        SyntaxComponentMultiplier::Once => if cnt == 0 {
            Fulfillment::NotYetFulfilled
        } else if cnt == 1 {
            Fulfillment::Fulfilled
        } else {
            Fulfillment::NotFulfilled
        },
        SyntaxComponentMultiplier::ZeroOrMore => Fulfillment::FulfilledButMoreAllowed,
        SyntaxComponentMultiplier::OneOrMore => if cnt == 0 {
            Fulfillment::NotYetFulfilled
        } else {
            Fulfillment::FulfilledButMoreAllowed
        },
        SyntaxComponentMultiplier::Optional => if cnt == 0 {
            Fulfillment::FulfilledButMoreAllowed
        } else if cnt == 1 {
            Fulfillment::Fulfilled
        } else {
            Fulfillment::NotFulfilled
        },
        SyntaxComponentMultiplier::Between(from, to) => if cnt < from {
            Fulfillment::NotYetFulfilled
        } else if cnt <= to {
            Fulfillment::FulfilledButMoreAllowed
        } else {
            Fulfillment::NotFulfilled
        },
        SyntaxComponentMultiplier::AtLeastOneValue => if cnt == 0 {
            Fulfillment::NotYetFulfilled
        } else {
            Fulfillment::FulfilledButMoreAllowed
        },
        SyntaxComponentMultiplier::CommaSeparatedRepeat(from, to) => if cnt < from {
            Fulfillment::NotYetFulfilled
        } else if cnt <= to {
            Fulfillment::FulfilledButMoreAllowed
        } else {
            Fulfillment::NotFulfilled
        },
    }
}

/// Helper function to return no matches
pub fn no_match(input: &Vec<CssValue>) -> (r: MatchResult)
    ensures
        r@ == no_match_view(values_view(input@)),
{
    let r = MatchResult { remainder: copy_values(input), matched: false, matched_values: Vec::new() };
    assert(values_view(Seq::<CssValue>::empty()) =~= Seq::<CssValueView>::empty());
    r
}

/// Helper function to return the first element from input in a match result
pub fn first_match(input: &Vec<CssValue>) -> (r: MatchResult)
    requires
        input.len() > 0,
    ensures
        r@ == first_match_view(values_view(input@)),
{
    proof { lemma_values_view(input@); }
    let mut remainder: Vec<CssValue> = Vec::new();
    let mut i: usize = 1;
    assert(values_view(Seq::<CssValue>::empty()) =~= Seq::<CssValueView>::empty());
    while i < input.len()
        invariant
            1 <= i <= input.len(),
            values_view(remainder@) == values_view(input@).subrange(1, i as int),
            values_view(input@).len() == input.len(),
            forall|k: int| 0 <= k < input.len() ==> values_view(input@)[k] == value_view(#[trigger] input@[k]),
        decreases input.len() - i,
    {
        let x = input[i].copy();
        proof { lemma_values_view_push(remainder@, x); }
        remainder.push(x);
        i += 1;
        assert(values_view(remainder@) =~= values_view(input@).subrange(1, i as int));
    }
    let first = input[0].copy();
    let mut matched_values: Vec<CssValue> = Vec::new();
    proof { lemma_values_view_push(matched_values@, first); }
    matched_values.push(first);
    assert(values_view(matched_values@) =~= seq![values_view(input@)[0]]);
    assert(values_view(input@).subrange(1, input.len() as int) =~= values_view(input@).drop_first());
    MatchResult { remainder, matched: true, matched_values }
}

/// Whether two strings are equal up to the case of ASCII letters.
pub fn eq_ignore_ascii_case(a: &str, b: &str) -> (r: bool)
    ensures
        r == eq_ignore_case(a@, b@),
{
    let x = chars_of(a);
    let y = chars_of(b);
    if x.len() != y.len() {
        return false;
    }
    let mut i: usize = 0;
    while i < x.len()
        invariant
            x@ == a@,
            y@ == b@,
            x.len() == y.len(),
            i <= x.len(),
            forall|k: int| 0 <= k < i ==> ascii_fold(#[trigger] x@[k]) == ascii_fold(y@[k]),
        decreases x.len() - i,
    {
        let c = x[i];
        let d = y[i];
        let fc: u32 = if 'A' <= c && c <= 'Z' {
            c as u32 + 32
        } else {
            c as u32
        };
        let fd: u32 = if 'A' <= d && d <= 'Z' {
            d as u32 + 32
        } else {
            d as u32
        };
        assert(fc as int == ascii_fold(c));
        assert(fd as int == ascii_fold(d));
        if fc != fd {
            assert(ascii_fold(x@[i as int]) != ascii_fold(y@[i as int]));
            return false;
        }
        i += 1;
    }
    true
}

/// Whether some word of `list` equals `s` up to ASCII case.
fn contains_ignoring_case(list: &Vec<&str>, s: &str, Ghost(words): Ghost<Seq<Seq<char>>>) -> (r: bool)
    requires
        list@.len() == words.len(),
        forall|i: int| 0 <= i < words.len() ==> (#[trigger] list@[i])@ == words[i],
    ensures
        r == contains_ignore_case(words, s@),
{
    let mut i: usize = 0;
    while i < list.len()
        invariant
            i <= list.len(),
            list@.len() == words.len(),
            forall|j: int| 0 <= j < words.len() ==> (#[trigger] list@[j])@ == words[j],
            forall|j: int| 0 <= j < i ==> !eq_ignore_case(#[trigger] words[j], s@),
        decreases list.len() - i,
    {
        if eq_ignore_ascii_case(list[i], s) {
            assert(eq_ignore_case(words[i as int], s@));
            return true;
        }
        i += 1;
    }
    false
}

/// Whether some word of `list` equals `s`.
fn contains_exactly(list: &Vec<&str>, s: &String, Ghost(words): Ghost<Seq<Seq<char>>>) -> (r: bool)
    requires
        list@.len() == words.len(),
        forall|i: int| 0 <= i < words.len() ==> (#[trigger] list@[i])@ == words[i],
    ensures
        r == words.contains(s@),
{
    let mut i: usize = 0;
    let t = chars_of(s.as_str());
    while i < list.len()
        invariant
            i <= list.len(),
            t@ == s@,
            list@.len() == words.len(),
            forall|j: int| 0 <= j < words.len() ==> (#[trigger] list@[j])@ == words[j],
            forall|j: int| 0 <= j < i ==> words[j] != s@,
        decreases list.len() - i,
    {
        if chars_eq(&chars_of(list[i]), &t) {
            assert(words[i as int] == s@);
            return true;
        }
        i += 1;
    }
    false
}

/// The units of lengths.
fn length_unit_list() -> (v: Vec<&'static str>)
    ensures
        v@.len() == length_units().len(),
        forall|i: int| 0 <= i < v@.len() ==> (#[trigger] v@[i])@ == length_units()[i],
{
    let v = vec![
        "cap", "ch", "em", "ex", "ic", "lh", "rcap", "rch", "rem", "rex", "ric", "rlh", "vh", "vw",
        "vmax", "vmin", "vb", "vi", "cqw", "cqh", "cqi", "cqb", "cqmin", "cqmax", "px", "cm", "mm",
        "Q", "in", "pc", "pt",
    ];
    assert(forall|i: int| 0 <= i < v@.len() ==> (#[trigger] v@[i])@ == length_units()[i]);
    v
}

/// The units of angles.
fn angle_unit_list() -> (v: Vec<&'static str>)
    ensures
        v@.len() == angle_units().len(),
        forall|i: int| 0 <= i < v@.len() ==> (#[trigger] v@[i])@ == angle_units()[i],
{
    let v = vec!["deg", "grad", "rad", "turn"];
    assert(forall|i: int| 0 <= i < v@.len() ==> (#[trigger] v@[i])@ == angle_units()[i]);
    v
}

/// The system color keywords.
fn system_color_list() -> (v: Vec<&'static str>)
    ensures
        v@.len() == system_colors().len(),
        forall|i: int| 0 <= i < v@.len() ==> (#[trigger] v@[i])@ == system_colors()[i],
{
    let v = vec![
        "AccentColor", "AccentColorText", "ActiveText", "ButtonBorder", "ButtonFace",
        "ButtonText", "Canvas", "CanvasText", "Field", "FieldText", "GrayText",
        "Highlight", "HighlightText", "LinkText", "Mark", "MarkText", "SelectedItem",
        "SelectedItemText", "VisitedText", "ActiveBorder", "ActiveCaption",
        "AppWorkspace", "Background", "ButtonHighlight", "ButtonShadow", "CaptionText",
        "InactiveBorder", "InactiveCaption", "InactiveCaptionText", "InfoBackground",
        "InfoText", "Menu", "MenuText", "Scrollbar", "ThreeDDarkShadow", "ThreeDFace",
        "ThreeDHighlight", "ThreeDLightShadow", "ThreeDShadow", "Window", "WindowFrame",
        "WindowText",
    ];
    assert(forall|i: int| 0 <= i < v@.len() ==> (#[trigger] v@[i])@ == system_colors()[i]);
    v
}

/// Whether the number is written as a number whose digits are all zero.
pub fn number_is_zero_text(text: &String) -> (r: bool)
    ensures
        r == number_is_zero(text@),
{
    let s = chars_of(text.as_str());
    match decimal(&s, 0) {
        Ok(q) => q == s.len() && float_is_zero(&s, 0),
        Err(_) => false,
    }
}

/// The integer part of a plain decimal number compared with `k`: at least `k`, equal to `k`.
fn integer_part_vs(s: &Vec<char>, k: u32) -> (r: (bool, bool))
    ensures
        r.0 == (decimal_integer_part(s@) >= k),
        r.1 == (decimal_integer_part(s@) == k),
{
    let ds: usize = if s.len() > 0 && (s[0] == '-' || s[0] == '+') {
        1
    } else {
        0
    };
    assert(ds == digits_start(s@));
    let de = digit_end(s, ds);
    if de == ds {
        assert(s@.subrange(ds as int, de as int) =~= Seq::<char>::empty());
        return (k == 0, k == 0);
    }
    match parse_u64(s, ds) {
        Some((e, v)) => (v >= k as u64, v == k as u64),
        None => (true, false),
    }
}

/// Whether the fraction of a plain decimal number is zero.
fn fraction_is_zero(s: &Vec<char>) -> (r: bool)
    ensures
        r == decimal_fraction_zero(s@),
{
    let ds: usize = if s.len() > 0 && (s[0] == '-' || s[0] == '+') {
        1
    } else {
        0
    };
    let de = digit_end(s, ds);
    let mut i = de;
    while i < s.len()
        invariant
            de <= i <= s.len(),
            de == digits_end(s@, digits_start(s@)),
            forall|j: int| de <= j < i ==> (#[trigger] s@[j] == '.' || s@[j] == '0'),
        decreases s.len() - i,
    {
        if !(s[i] == '.' || s[i] == '0') {
            return false;
        }
        i += 1;
    }
    true
}

/// Whether the number is at least the bound.
pub fn number_at_least(text: &String, bound: Option<u32>) -> (r: bool)
    ensures
        r == at_least(text@, bound),
{
    let s = chars_of(text.as_str());
    if mantissa_end(&s, 0) != Some(s.len()) {
        return false;
    }
    match bound {
        None => true,
        Some(k) => if s[0] == '-' && !float_is_zero(&s, 0) {
            false
        } else if s[0] == '-' {
            k == 0
        } else {
            integer_part_vs(&s, k).0
        },
    }
}

/// Whether the number is at most the bound.
pub fn number_at_most(text: &String, bound: Option<u32>) -> (r: bool)
    ensures
        r == at_most(text@, bound),
{
    let s = chars_of(text.as_str());
    if mantissa_end(&s, 0) != Some(s.len()) {
        return false;
    }
    match bound {
        None => true,
        Some(k) => {
            if s[0] == '-' {
                return true;
            }
            let (ge, eq) = integer_part_vs(&s, k);
            !ge || (eq && fraction_is_zero(&s))
        },
    }
}

/// Whether `v` is a string equal to the literal, up to ASCII case.
fn string_value_is(v: &CssValue, literal: &str) -> (r: bool)
    ensures
        r == (v@ matches CssValueView::String(s) && eq_ignore_case(s, literal@)),
{
    match v {
        CssValue::String(s) => eq_ignore_ascii_case(s.as_str(), literal),
        _ => false,
    }
}

/// Matches a value against a built-in type; `None` for a type that is not handled.
fn builtin_match(datatype: &String, v: &CssValue) -> (r: Option<bool>)
    ensures
        r == builtin_matches(datatype@, v@),
{
    let d = chars_of(datatype.as_str());
    if chars_eq(&d, &chars_of("percentage")) {
        Some(match v {
            CssValue::Percentage(_) => true,
            _ => false,
        })
    } else if chars_eq(&d, &chars_of("angle")) {
        let units = angle_unit_list();
        Some(match v {
            CssValue::Zero => true,
            CssValue::Unit(_, u) => contains_ignoring_case(&units, u.as_str(), Ghost(angle_units())),
            _ => false,
        })
    } else if chars_eq(&d, &chars_of("length")) {
        let units = length_unit_list();
        Some(match v {
            CssValue::Zero => true,
            CssValue::Unit(_, u) => contains_exactly(&units, u, Ghost(length_units())),
            _ => false,
        })
    } else if chars_eq(&d, &chars_of("system-color")) {
        let colors = system_color_list();
        Some(match v {
            CssValue::String(s) => contains_ignoring_case(&colors, s.as_str(), Ghost(system_colors())),
            _ => false,
        })
    } else if chars_eq(&d, &chars_of("named-color")) {
        Some(match v {
            CssValue::String(s) => get_hex_color_from_name(s.as_str()).is_some(),
            _ => false,
        })
    } else if chars_eq(&d, &chars_of("color()")) || chars_eq(&d, &chars_of("hex-color")) {
        Some(match v {
            CssValue::Color(_) => true,
            CssValue::String(s) => {
                let t = chars_of(s.as_str());
                t.len() > 0 && t[0] == '#'
            },
            _ => false,
        })
    } else {
        None
    }
}

/// Whether `u` is one of the units.
fn unit_listed(units: &Vec<String>, u: &String) -> (r: bool)
    ensures
        r == strings_view(units@).contains(u@),
{
    let mut i: usize = 0;
    while i < units.len()
        invariant
            i <= units.len(),
            forall|j: int| 0 <= j < i ==> units@[j]@ != u@,
        decreases units.len() - i,
    {
        if string_eq(&units[i], u) {
            assert(strings_view(units@)[i as int] == u@);
            return true;
        }
        i += 1;
    }
    assert forall|j: int| 0 <= j < strings_view(units@).len() implies strings_view(units@)[j] != u@ by {
        assert(strings_view(units@)[j] == units@[j]@);
    }
    false
}

/// Matches the first value of the input against a component that is not a group.
pub fn match_component_single(input: &Vec<CssValue>, component: &SyntaxComponent) -> (r: MatchResult)
    requires
        input.len() > 0,
        single_match(values_view(input@), component@) is Some,
    ensures
        single_match(values_view(input@), component@) == Some(r@),
{
    proof { lemma_values_view(input@); }
    let value = &input[0];
    let hit: bool = match component {
        SyntaxComponent::GenericKeyword { keyword, .. } => {
            let none_keyword = match value {
                CssValue::NoneValue => eq_ignore_ascii_case(keyword.as_str(), "none"),
                _ => false,
            };
            none_keyword || string_value_is(value, keyword.as_str())
        },
        SyntaxComponent::TypeDefinition { definition, quoted, .. } => {
            if *quoted {
                proof { assert(false); }
                false
            } else {
                match builtin_match(definition, value) {
                    Some(b) => b,
                    None => {
                        proof { assert(false); }
                        false
                    },
                }
            }
        },
        SyntaxComponent::Inherit { .. } => match value {
            CssValue::Inherit => true,
            _ => string_value_is(value, "inherit"),
        },
        SyntaxComponent::Initial { .. } => match value {
            CssValue::Initial => true,
            _ => string_value_is(value, "initial"),
        },
        SyntaxComponent::Unset { .. } => string_value_is(value, "unset"),
        SyntaxComponent::Unit { from, to, unit, .. } => match value {
            CssValue::Number(n) => number_is_zero_text(&n.text),
            CssValue::Unit(n, u) => unit_listed(unit, u) && number_at_least(&n.text, *from) && number_at_most(&n.text, *to),
            _ => false,
        },
        SyntaxComponent::Literal { literal, .. } => string_value_is(value, literal.as_str()),
        SyntaxComponent::Function { name, .. } => match value {
            CssValue::Function(c_name, c_args) => {
                if !eq_ignore_ascii_case(name.as_str(), c_name.as_str()) {
                    false
                } else if c_args.len() == 0 {
                    proof { lemma_values_view(c_args@); }
                    true
                } else {
                    proof {
                        lemma_values_view(c_args@);
                        assert(false);
                    }
                    false
                }
            },
            _ => false,
        },
        SyntaxComponent::Value { value: css, .. } => value.same_as(css),
        _ => {
            proof { assert(false); }
            false
        },
    };
    if hit {
        first_match(input)
    } else {
        no_match(input)
    }
}

/// The value of an optional match result.
pub open spec fn opt_view(b: Option<MatchResult>) -> Option<MatchView> {
    match b {
        Some(r) => Some(r@),
        None => None,
    }
}

/// Every component counts as unmatched at the start.
proof fn lemma_unmatched_count_none(n: nat)
    ensures
        unmatched_count(no_flags(n)) == n,
    decreases n,
{
    if n > 0 {
        lemma_unmatched_count_none((n - 1) as nat);
        assert(no_flags(n).drop_last() =~= no_flags((n - 1) as nat));
    }
}

/// The result of a component that keeps matching without consuming anything.
fn stalled_result(input: &Vec<CssValue>, component: &SyntaxComponent) -> (r: MatchResult)
    requires
        stalled(values_view(input@), component@) is Some,
    ensures
        stalled(values_view(input@), component@) == Some(r@),
{
    proof { lemma_view_multiplier(*component); }
    no_match(input)
}

/// The first component at or after `i` that has not matched yet (or the end).
fn next_unmatched_index(flags: &Vec<bool>, i: usize) -> (r: usize)
    requires
        i <= flags.len(),
    ensures
        r == next_unmatched(flags@, i as int),
        i <= r <= flags.len(),
{
    let mut r = i;
    while r < flags.len() && flags[r]
        invariant
            i <= r <= flags.len(),
            next_unmatched(flags@, i as int) == next_unmatched(flags@, r as int),
        decreases flags.len() - r,
    {
        r += 1;
    }
    r
}

/// Matches a component against the input values. After the match, there might be remaining
/// elements in the input; they are handed back in the result.
pub fn match_component(raw_input: &Vec<CssValue>, component: &SyntaxComponent) -> (r: MatchResult)
    requires
        match_component_spec(values_view(raw_input@), component@) is Some,
    ensures
        match_component_spec(values_view(raw_input@), component@) == Some(r@),
    decreases component, 3int, 0int, 0int,
{
    let ghost c = component@;
    let mut input = copy_values(raw_input);
    let mut matched_values: Vec<CssValue> = Vec::new();
    let mut multiplier_count: usize = 0;
    proof {
        lemma_values_view(raw_input@);
        lemma_values_view(input@);
        assert(values_view(Seq::<CssValue>::empty()) =~= Seq::<CssValueView>::empty());
    }
    loop
        invariant
            c == component@,
            match_component_spec(values_view(raw_input@), c) == component_loop(
                values_view(input@),
                c,
                multiplier_count as int,
                values_view(matched_values@),
            ),
            component_loop(values_view(input@), c, multiplier_count as int, values_view(matched_values@)) is Some,
            input.len() <= raw_input.len(),
            multiplier_count + input.len() <= raw_input.len(),
        decreases input.len(),
    {
        proof { lemma_values_view(input@); }
        if input.len() == 0 {
            let f = multiplier_fulfilled(component, 0);
            if f == Fulfillment::Fulfilled || f == Fulfillment::FulfilledButMoreAllowed {
                let r = MatchResult { remainder: Vec::new(), matched: true, matched_values: Vec::new() };
                assert(values_view(Seq::<CssValue>::empty()) =~= Seq::<CssValueView>::empty());
                return r;
            }
            return no_match(&input);
        }
        let res = if component.is_group() {
            match_component_group(&input, component)
        } else {
            match_component_single(&input, component)
        };
        proof {
            lemma_values_view(res.remainder@);
        }
        if res.matched {
            multiplier_count += 1;
            let mut more = copy_values(&res.matched_values);
            proof { lemma_values_view_add(matched_values@, more@); }
            matched_values.append(&mut more);
            match multiplier_fulfilled(component, multiplier_count) {
                Fulfillment::NotYetFulfilled => {
                    if res.remainder.len() < input.len() {
                        input = res.remainder;
                    } else {
                        return stalled_result(&input, component);
                    }
                },
                Fulfillment::FulfilledButMoreAllowed => {
                    if res.remainder.len() == 0 {
                        return MatchResult { remainder: res.remainder, matched: true, matched_values };
                    }
                    if res.remainder.len() < input.len() {
                        input = res.remainder;
                    } else {
                        return stalled_result(&input, component);
                    }
                },
                Fulfillment::Fulfilled => {
                    return MatchResult { remainder: res.remainder, matched: true, matched_values };
                },
                Fulfillment::NotFulfilled => {
                    return no_match(&input);
                },
            }
        } else {
            match multiplier_fulfilled(component, multiplier_count) {
                Fulfillment::NotYetFulfilled => {
                    return res;
                },
                Fulfillment::Fulfilled => {
                    return res;
                },
                Fulfillment::FulfilledButMoreAllowed => {
                    return MatchResult { remainder: input, matched: true, matched_values };
                },
                Fulfillment::NotFulfilled => {
                    return no_match(&input);
                },
            }
        }
    }
}

/// Matches a component group
pub fn match_component_group(input: &Vec<CssValue>, component: &SyntaxComponent) -> (r: MatchResult)
    requires
        group_match(values_view(input@), component@) is Some,
    ensures
        group_match(values_view(input@), component@) == Some(r@),
    decreases component, 1int, 0int, 0int,
{
    match component {
        SyntaxComponent::Group { components, combinator, .. } => {
            proof { lemma_components_view(components@); }
            match combinator {
            GroupCombinators::Juxtaposition => match_group_juxtaposition(input, components),
            GroupCombinators::AllAnyOrder => match_group_all_any_order(input, components),
            GroupCombinators::AtLeastOneAnyOrder => match_group_at_least_one_any_order(input, components),
            GroupCombinators::ExactlyOne => match_group_exactly_one(input, components),
            }
        },
        _ => {
            proof { assert(false); }
            no_match(input)
        },
    }
}

/// Matches the components one after the other, each on what the previous ones left.
pub fn match_group_juxtaposition(raw_input: &Vec<CssValue>, components: &Vec<SyntaxComponent>) -> (r: MatchResult)
    requires
        juxtaposition_from(values_view(raw_input@), components_view(components@), 0, Seq::empty()) is Some,
    ensures
        juxtaposition_from(values_view(raw_input@), components_view(components@), 0, Seq::empty()) == Some(r@),
    decreases components, 0int, 0int, 0int,
{
    let ghost cs = components_view(components@);
    proof {
        lemma_components_view(components@);
        lemma_values_view(raw_input@);
        assert(values_view(Seq::<CssValue>::empty()) =~= Seq::<CssValueView>::empty());
    }
    let mut input = copy_values(raw_input);
    let mut matched_values: Vec<CssValue> = Vec::new();
    let mut c_idx: usize = 0;
    while c_idx < components.len()
        invariant
            cs == components_view(components@),
            cs.len() == components.len(),
            forall|k: int| 0 <= k < components.len() ==> cs[k] == component_view(#[trigger] components@[k]),
            c_idx <= components.len(),
            juxtaposition_from(values_view(raw_input@), cs, 0, Seq::empty()) == juxtaposition_from(
                values_view(input@),
                cs,
                c_idx as int,
                values_view(matched_values@),
            ),
            juxtaposition_from(values_view(input@), cs, c_idx as int, values_view(matched_values@)) is Some,
        decreases components.len() - c_idx,
    {
        assert(decreases_to!(components => components@[c_idx as int]));
        let res = match_component(&input, &components[c_idx]);
        if res.matched {
            let mut more = copy_values(&res.matched_values);
            proof { lemma_values_view_add(matched_values@, more@); }
            matched_values.append(&mut more);
            input = res.remainder;
        } else {
            return no_match(&input);
        }
        c_idx += 1;
    }
    MatchResult { remainder: input, matched: true, matched_values }
}

/// Returns the match of exactly one component: the first of those that matched with the
/// shortest remainder.
pub fn match_group_exactly_one(raw_input: &Vec<CssValue>, components: &Vec<SyntaxComponent>) -> (r: MatchResult)
    requires
        exactly_one_from(values_view(raw_input@), components_view(components@), 0, None) is Some,
    ensures
        exactly_one_from(values_view(raw_input@), components_view(components@), 0, None) == Some(r@),
        raw_input@.len() > 0 ==> ({
            let input = values_view(raw_input@);
            let cs = components_view(components@);
            &&& r.matched == exists|j: int| 0 <= j < cs.len() && #[trigger] alternative_matches(input, cs, j)
            &&& !r.matched ==> r@ == no_match_view(input)
            &&& r.matched ==> exists|k: int| #[trigger] longest_alternative(input, cs, k, cs.len() as int)
                && r@ == alternative_result(input, cs, k)
        }),
    decreases components, 0int, 0int, 0int,
{
    proof {
        lemma_values_view(raw_input@);
        if raw_input@.len() > 0 {
            let input = values_view(raw_input@);
            let cs = components_view(components@);
            lemma_exactly_one_defined(input, cs, 0, None);
            law_exactly_one_takes_the_longest_match(input, cs);
        }
    }
    let ghost cs = components_view(components@);
    proof {
        lemma_components_view(components@);
        lemma_values_view(raw_input@);
    }
    let input = copy_values(raw_input);
    proof { lemma_values_view(input@); }
    if input.len() == 0 {
        return no_match(&input);
    }
    let mut best: Option<MatchResult> = None;
    let mut c_idx: usize = 0;
    while c_idx < components.len()
        invariant
            cs == components_view(components@),
            cs.len() == components.len(),
            forall|k: int| 0 <= k < components.len() ==> cs[k] == component_view(#[trigger] components@[k]),
            c_idx <= components.len(),
            input.len() > 0,
            values_view(input@) == values_view(raw_input@),
            exactly_one_from(values_view(raw_input@), cs, 0, None) == exactly_one_from(
                values_view(input@),
                cs,
                c_idx as int,
                opt_view(best),
            ),
            exactly_one_from(values_view(input@), cs, c_idx as int, opt_view(best)) is Some,
        decreases components.len() - c_idx,
    {
        assert(decreases_to!(components => components@[c_idx as int]));
        let res = match_component(&input, &components[c_idx]);
        proof { lemma_values_view(res.remainder@); }
        if res.matched {
            best = match best {
                None => Some(res),
                Some(b) => {
                    proof { lemma_values_view(b.remainder@); }
                    if res.remainder.len() < b.remainder.len() {
                        Some(res)
                    } else {
                        Some(b)
                    }
                },
            };
        }
        c_idx += 1;
    }
    match best {
        None => no_match(&input),
        Some(b) => MatchResult { remainder: b.remainder, matched: true, matched_values: b.matched_values },
    }
}

/// Matches the components in any order: after each match the search starts over at the first
/// component that has not matched yet. With `all`, every component must match; otherwise at
/// least one.
fn match_group_any_order(raw_input: &Vec<CssValue>, components: &Vec<SyntaxComponent>, all: bool) -> (r: MatchResult)
    requires
        any_order_from(
            values_view(raw_input@),
            components_view(components@),
            0,
            no_flags(components@.len()),
            0,
            Seq::empty(),
            all,
        ) is Some,
    ensures
        any_order_from(
            values_view(raw_input@),
            components_view(components@),
            0,
            no_flags(components@.len()),
            0,
            Seq::empty(),
            all,
        ) == Some(r@),
    decreases components, 0int, 0int, 0int,
{
    let ghost cs = components_view(components@);
    let ghost start = any_order_from(
        values_view(raw_input@),
        cs,
        0,
        no_flags(components@.len()),
        0,
        Seq::empty(),
        all,
    );
    proof {
        lemma_components_view(components@);
        lemma_values_view(raw_input@);
        assert(values_view(Seq::<CssValue>::empty()) =~= Seq::<CssValueView>::empty());
        lemma_unmatched_count_none(components@.len());
    }
    let mut input = copy_values(raw_input);
    let mut matched_values: Vec<CssValue> = Vec::new();
    let mut flags: Vec<bool> = Vec::new();
    while flags.len() < components.len()
        invariant
            flags.len() <= components.len(),
            forall|k: int| 0 <= k < flags.len() ==> !flags@[k],
        decreases components.len() - flags.len(),
    {
        flags.push(false);
    }
    assert(flags@ =~= no_flags(components@.len()));
    let mut count: usize = 0;
    let mut c_idx: usize = 0;
    loop
        invariant
            cs == components_view(components@),
            cs.len() == components.len(),
            forall|k: int| 0 <= k < components.len() ==> cs[k] == component_view(#[trigger] components@[k]),
            flags.len() == components.len(),
            c_idx <= components.len(),
            count + unmatched_count(flags@) == components.len(),
            start == any_order_from(values_view(input@), cs, c_idx as int, flags@, count as int, values_view(matched_values@), all),
            start == any_order_from(values_view(raw_input@), cs, 0, no_flags(components@.len()), 0, Seq::empty(), all),
            start is Some,
        decreases unmatched_count(flags@), components.len() + 1 - c_idx,
    {
        proof { lemma_values_view(input@); }
        if c_idx >= components.len() || flags[c_idx] || input.len() == 0 {
            assert(start == any_order_from(values_view(input@), cs, c_idx as int, flags@, count as int, values_view(matched_values@), all));
            if (all && count != components.len()) || (!all && count == 0) {
                assert(start == Some(no_match_view(values_view(input@))));
                return no_match(&input);
            } else {
                return MatchResult { remainder: input, matched: true, matched_values };
            }
        }
        assert(decreases_to!(components => components@[c_idx as int]));
        let res = match_component(&input, &components[c_idx]);
        if res.matched {
            let mut more = copy_values(&res.matched_values);
            proof {
                lemma_values_view_add(matched_values@, more@);
                lemma_unmatched_count_mark(flags@, c_idx as int);
            }
            matched_values.append(&mut more);
            flags.set(c_idx, true);
            count += 1;
            input = res.remainder;
            c_idx = next_unmatched_index(&flags, 0);
        } else {
            c_idx = next_unmatched_index(&flags, c_idx + 1);
        }
    }
}

/// Matches when all the components match, in any order.
pub fn match_group_all_any_order(raw_input: &Vec<CssValue>, components: &Vec<SyntaxComponent>) -> (r: MatchResult)
    requires
        any_order_from(values_view(raw_input@), components_view(components@), 0, no_flags(components@.len()), 0, Seq::empty(), true) is Some,
    ensures
        any_order_from(values_view(raw_input@), components_view(components@), 0, no_flags(components@.len()), 0, Seq::empty(), true) == Some(r@),
    decreases components, 1int, 0int, 0int,
{
    match_group_any_order(raw_input, components, true)
}

/// Matches when at least one of the components matches, in any order.
pub fn match_group_at_least_one_any_order(raw_input: &Vec<CssValue>, components: &Vec<SyntaxComponent>) -> (r: MatchResult)
    requires
        any_order_from(values_view(raw_input@), components_view(components@), 0, no_flags(components@.len()), 0, Seq::empty(), false) is Some,
    ensures
        any_order_from(values_view(raw_input@), components_view(components@), 0, no_flags(components@.len()), 0, Seq::empty(), false) == Some(r@),
    decreases components, 1int, 0int, 0int,
{
    match_group_any_order(raw_input, components, false)
}

impl CssSyntaxTree {
    /// Matches a list of values against the syntax tree: its root component must match all
    /// of them.
    pub fn matches(&self, input: Vec<CssValue>) -> (r: bool)
        requires
            self.components@.len() == 1,
            tree_matches(self.view_components(), values_view(input@)) is Some,
        ensures
            tree_matches(self.view_components(), values_view(input@)) == Some(r),
    {
        proof { lemma_components_view(self.components@); }
        let res = match_component(&input, &self.components[0]);
        proof { lemma_values_view(res.remainder@); }
        res.matched && res.remainder.len() == 0
    }
}

// ---------------------------------------------------------------------------------------
// What matching leaves over.

/// `r` is the end of `input`.
pub open spec fn is_suffix(r: Seq<CssValueView>, input: Seq<CssValueView>) -> bool {
    r.len() <= input.len() && r == input.subrange(input.len() - r.len(), input.len() as int)
}

/// The end of the end of a sequence is an end of it.
proof fn lemma_suffix_trans(a: Seq<CssValueView>, b: Seq<CssValueView>, c: Seq<CssValueView>)
    requires
        is_suffix(a, b),
        is_suffix(b, c),
    ensures
        is_suffix(a, c),
{
    assert(a =~= c.subrange(c.len() - a.len(), c.len() as int));
}

/// A sequence is an end of itself.
proof fn lemma_suffix_refl(a: Seq<CssValueView>)
    ensures
        is_suffix(a, a),
{
    assert(a =~= a.subrange(0, a.len() as int));
}

/// Matching a single value leaves the end of the input.
proof fn lemma_single_remainder(input: Seq<CssValueView>, c: ComponentView)
    requires
        input.len() > 0,
    ensures
        single_match(input, c) matches Some(r) ==> is_suffix(r.remainder, input),
{
    lemma_suffix_refl(input);
    assert(input.drop_first() =~= input.subrange(1, input.len() as int));
}

/// Law: what matching a component against values leaves over is always the end of those
/// values: matching consumes values from the front and never invents or reorders any.
pub proof fn lemma_match_remainder_is_suffix(input: Seq<CssValueView>, c: ComponentView)
    ensures
        match_component_spec(input, c) matches Some(r) ==> is_suffix(r.remainder, input),
    decreases c, 3int, 0int, 0int,
{
    lemma_loop_remainder(input, c, 0, Seq::empty());
}

proof fn lemma_loop_remainder(input: Seq<CssValueView>, c: ComponentView, count: int, acc: Seq<CssValueView>)
    ensures
        component_loop(input, c, count, acc) matches Some(r) ==> is_suffix(r.remainder, input),
    decreases c, 2int, input.len(), 0int,
{
    lemma_suffix_refl(input);
    if input.len() == 0 {
        assert(Seq::<CssValueView>::empty() =~= input.subrange(0, 0));
    } else {
        if c is Group {
            lemma_group_remainder(input, c);
        } else {
            lemma_single_remainder(input, c);
        }
        let r = if c is Group {
            group_match(input, c)
        } else {
            single_match(input, c)
        };
        if let Some(res) = r {
            if res.matched && res.remainder.len() < input.len() {
                lemma_loop_remainder(res.remainder, c, count + 1, acc + res.matched_values);
                if let Some(out) = component_loop(res.remainder, c, count + 1, acc + res.matched_values) {
                    lemma_suffix_trans(out.remainder, res.remainder, input);
                }
            }
        }
    }
}

proof fn lemma_group_remainder(input: Seq<CssValueView>, c: ComponentView)
    ensures
        group_match(input, c) matches Some(r) ==> is_suffix(r.remainder, input),
    decreases c, 1int, 0int, 0int,
{
    lemma_suffix_refl(input);
    match c {
        ComponentView::Group(cs, k, _) => match k {
            GroupCombinators::Juxtaposition => lemma_juxtaposition_remainder(input, cs, 0, Seq::empty()),
            GroupCombinators::AllAnyOrder => lemma_any_order_remainder(input, cs, 0, no_flags(cs.len()), 0, Seq::empty(), true),
            GroupCombinators::AtLeastOneAnyOrder => lemma_any_order_remainder(input, cs, 0, no_flags(cs.len()), 0, Seq::empty(), false),
            GroupCombinators::ExactlyOne => lemma_exactly_one_remainder(input, cs, 0, None),
        },
        _ => {},
    }
}

proof fn lemma_juxtaposition_remainder(input: Seq<CssValueView>, cs: Seq<ComponentView>, i: int, values: Seq<CssValueView>)
    ensures
        juxtaposition_from(input, cs, i, values) matches Some(r) ==> is_suffix(r.remainder, input),
    decreases cs, 0int, cs.len() - i, 0int,
{
    lemma_suffix_refl(input);
    if 0 <= i < cs.len() {
        lemma_match_remainder_is_suffix(input, cs[i]);
        if let Some(res) = match_component_spec(input, cs[i]) {
            if res.matched {
                lemma_juxtaposition_remainder(res.remainder, cs, i + 1, values + res.matched_values);
                if let Some(out) = juxtaposition_from(res.remainder, cs, i + 1, values + res.matched_values) {
                    lemma_suffix_trans(out.remainder, res.remainder, input);
                }
            }
        }
    }
}

proof fn lemma_exactly_one_remainder(input: Seq<CssValueView>, cs: Seq<ComponentView>, i: int, best: Option<MatchView>)
    requires
        best matches Some(b) ==> is_suffix(b.remainder, input),
    ensures
        exactly_one_from(input, cs, i, best) matches Some(r) ==> is_suffix(r.remainder, input),
    decreases cs, 0int, cs.len() - i, 0int,
{
    lemma_suffix_refl(input);
    if input.len() != 0 && 0 <= i < cs.len() {
        lemma_match_remainder_is_suffix(input, cs[i]);
        if let Some(res) = match_component_spec(input, cs[i]) {
            let best2 = if res.matched {
                match best {
                    None => Some(res),
                    Some(b) => if res.remainder.len() < b.remainder.len() {
                        Some(res)
                    } else {
                        best
                    },
                }
            } else {
                best
            };
            lemma_exactly_one_remainder(input, cs, i + 1, best2);
        }
    }
}

proof fn lemma_any_order_remainder(
    input: Seq<CssValueView>,
    cs: Seq<ComponentView>,
    c_idx: int,
    flags: Seq<bool>,
    count: int,
    values: Seq<CssValueView>,
    all: bool,
)
    ensures
        any_order_from(input, cs, c_idx, flags, count, values, all) matches Some(r) ==> is_suffix(r.remainder, input),
    decreases cs, 0int, unmatched_count(flags), cs.len() + 1 - c_idx,
{
    lemma_suffix_refl(input);
    if !(c_idx < 0 || c_idx >= cs.len() || flags.len() != cs.len() || flags[c_idx] || input.len() == 0) {
        lemma_match_remainder_is_suffix(input, cs[c_idx]);
        if let Some(res) = match_component_spec(input, cs[c_idx]) {
            if res.matched {
                let flags2 = flags.update(c_idx, true);
                lemma_unmatched_count_mark(flags, c_idx);
                lemma_next_unmatched(flags2, 0);
                lemma_any_order_remainder(res.remainder, cs, next_unmatched(flags2, 0), flags2, count + 1, values + res.matched_values, all);
                if let Some(out) = any_order_from(res.remainder, cs, next_unmatched(flags2, 0), flags2, count + 1, values + res.matched_values, all) {
                    lemma_suffix_trans(out.remainder, res.remainder, input);
                }
            } else {
                lemma_next_unmatched(flags, c_idx + 1);
                lemma_any_order_remainder(input, cs, next_unmatched(flags, c_idx + 1), flags, count, values, all);
            }
        }
    }
}

/// The `i`-th alternative of a group matches the input.
pub open spec fn alternative_matches(input: Seq<CssValueView>, cs: Seq<ComponentView>, i: int) -> bool {
    match match_component_spec(input, cs[i]) {
        Some(r) => r.matched,
        None => false,
    }
}

/// How many values the `i`-th alternative of a group leaves unconsumed.
pub open spec fn alternative_rest(input: Seq<CssValueView>, cs: Seq<ComponentView>, i: int) -> int {
    match_component_spec(input, cs[i]).unwrap().remainder.len() as int
}

/// Among the first `n` alternatives, the `k`-th matches and consumes the most input, and it is
/// the first of those that consume that much.
pub open spec fn longest_alternative(input: Seq<CssValueView>, cs: Seq<ComponentView>, k: int, n: int) -> bool {
    &&& 0 <= k < n
    &&& alternative_matches(input, cs, k)
    &&& forall|j: int| 0 <= j < n && #[trigger] alternative_matches(input, cs, j) ==>
            alternative_rest(input, cs, k) <= alternative_rest(input, cs, j)
    &&& forall|j: int| 0 <= j < k && #[trigger] alternative_matches(input, cs, j) ==>
            alternative_rest(input, cs, j) > alternative_rest(input, cs, k)
}

/// The match that the `k`-th alternative of a group gives the group.
pub open spec fn alternative_result(input: Seq<CssValueView>, cs: Seq<ComponentView>, k: int) -> MatchView {
    let r = match_component_spec(input, cs[k]).unwrap();
    MatchView { remainder: r.remainder, matched: true, matched_values: r.matched_values }
}

proof fn lemma_exactly_one_picks(
    input: Seq<CssValueView>,
    cs: Seq<ComponentView>,
    i: int,
    best: Option<MatchView>,
    kb: int,
) -> (k: int)
    requires
        input.len() > 0,
        0 <= i <= cs.len(),
        forall|j: int| 0 <= j < cs.len() ==> #[trigger] match_component_spec(input, cs[j]) is Some,
        best is None ==> forall|j: int| 0 <= j < i ==> !#[trigger] alternative_matches(input, cs, j),
        best matches Some(b) ==> longest_alternative(input, cs, kb, i)
            && b == match_component_spec(input, cs[kb]).unwrap(),
    ensures
        exactly_one_from(input, cs, i, best) is Some,
        (forall|j: int| 0 <= j < cs.len() ==> !#[trigger] alternative_matches(input, cs, j))
            ==> exactly_one_from(input, cs, i, best) == Some(no_match_view(input)),
        (exists|j: int| 0 <= j < cs.len() && #[trigger] alternative_matches(input, cs, j)) ==> {
            &&& longest_alternative(input, cs, k, cs.len() as int)
            &&& exactly_one_from(input, cs, i, best) == Some(alternative_result(input, cs, k))
        },
    decreases cs.len() - i,
{
    if i >= cs.len() {
        match best {
            None => {
                assert(forall|j: int| 0 <= j < cs.len() ==> !#[trigger] alternative_matches(input, cs, j));
                kb
            },
            Some(b) => kb,
        }
    } else {
        let res = match_component_spec(input, cs[i]).unwrap();
        assert(alternative_matches(input, cs, i) == res.matched);
        let (best2, kb2) = if res.matched {
            match best {
                None => (Some(res), i),
                Some(b) => if res.remainder.len() < b.remainder.len() {
                    (Some(res), i)
                } else {
                    (best, kb)
                },
            }
        } else {
            (best, kb)
        };
        assert(best2 is None ==> forall|j: int| 0 <= j < i + 1 ==> !#[trigger] alternative_matches(input, cs, j));
        assert(best2 matches Some(b2) ==> longest_alternative(input, cs, kb2, i + 1)
            && b2 == match_component_spec(input, cs[kb2]).unwrap());
        lemma_exactly_one_picks(input, cs, i + 1, best2, kb2)
    }
}

/// Where exactly-one matching gives a result, each alternative from the `i`-th on gives one.
proof fn lemma_exactly_one_defined(input: Seq<CssValueView>, cs: Seq<ComponentView>, i: int, best: Option<MatchView>)
    requires
        input.len() > 0,
        0 <= i,
        exactly_one_from(input, cs, i, best) is Some,
    ensures
        forall|j: int| i <= j < cs.len() ==> #[trigger] match_component_spec(input, cs[j]) is Some,
    decreases cs.len() - i,
{
    if i < cs.len() {
        let res = match_component_spec(input, cs[i])->0;
        let best2 = if res.matched {
            match best {
                None => Some(res),
                Some(b) => if res.remainder.len() < b.remainder.len() {
                    Some(res)
                } else {
                    best
                },
            }
        } else {
            best
        };
        lemma_exactly_one_defined(input, cs, i + 1, best2);
    }
}

/// Exactly one alternative of a group is taken: of the alternatives that match the input, the
/// one that consumes the most of it, the first of those on a tie; where none matches, the
/// group does not match and consumes nothing.
pub proof fn law_exactly_one_takes_the_longest_match(input: Seq<CssValueView>, cs: Seq<ComponentView>)
    requires
        input.len() > 0,
        forall|j: int| 0 <= j < cs.len() ==> #[trigger] match_component_spec(input, cs[j]) is Some,
    ensures
        exactly_one_from(input, cs, 0, None) is Some,
        (forall|j: int| 0 <= j < cs.len() ==> !#[trigger] alternative_matches(input, cs, j))
            ==> exactly_one_from(input, cs, 0, None) == Some(no_match_view(input)),
        (exists|j: int| 0 <= j < cs.len() && #[trigger] alternative_matches(input, cs, j)) ==> exists|k: int| {
            &&& #[trigger] longest_alternative(input, cs, k, cs.len() as int)
            &&& exactly_one_from(input, cs, 0, None) == Some(alternative_result(input, cs, k))
        },
{
    let k = lemma_exactly_one_picks(input, cs, 0, None, 0);
    if exists|j: int| 0 <= j < cs.len() && #[trigger] alternative_matches(input, cs, j) {
        assert(longest_alternative(input, cs, k, cs.len() as int));
    }
}

/// What matching a value type once takes from the front of `input`.
pub open spec fn takes_first(input: Seq<CssValueView>, d: Seq<char>, r: RangeType) -> Option<MatchView> {
    match_component_spec(input, ComponentView::TypeDefinition(d, false, r, SyntaxComponentMultiplier::Once))
}

/// Law: a bare zero (`margin: 0`) is a length and an angle: matched once, `<length>` and
/// `<angle>` take a leading zero and leave the rest; `<length>` also takes a number with a
/// length unit such as `px`, `em` or `rem`, and leaves a percentage or a string alone;
/// `<percentage>` takes a percentage but not a zero; `<angle>` takes degrees but not pixels.
pub proof fn law_zero_is_a_length(rest: Seq<CssValueView>, r: RangeType, n: Seq<char>, other: Seq<char>)
    ensures
        takes_first(seq![CssValueView::Zero] + rest, "length"@, r) == Some(
            MatchView { remainder: rest, matched: true, matched_values: seq![CssValueView::Zero] },
        ),
        takes_first(seq![CssValueView::Zero] + rest, "angle"@, r) == Some(
            MatchView { remainder: rest, matched: true, matched_values: seq![CssValueView::Zero] },
        ),
        takes_first(seq![CssValueView::Unit(n, "px"@)] + rest, "length"@, r)->0.matched,
        takes_first(seq![CssValueView::Unit(n, "em"@)] + rest, "length"@, r)->0.matched,
        takes_first(seq![CssValueView::Unit(n, "rem"@)] + rest, "length"@, r)->0.matched,
        !takes_first(seq![CssValueView::Percentage(n)] + rest, "length"@, r)->0.matched,
        !takes_first(seq![CssValueView::String(other)] + rest, "length"@, r)->0.matched,
        takes_first(seq![CssValueView::Percentage(n)] + rest, "percentage"@, r)->0.matched,
        !takes_first(seq![CssValueView::Zero] + rest, "percentage"@, r)->0.matched,
        takes_first(seq![CssValueView::Unit(n, "deg"@)] + rest, "angle"@, r)->0.matched,
        !takes_first(seq![CssValueView::Unit(n, "px"@)] + rest, "angle"@, r)->0.matched,
{
    reveal_strlit("length");
    reveal_strlit("angle");
    reveal_strlit("percentage");
    reveal_strlit("px");
    reveal_strlit("em");
    reveal_strlit("rem");
    assert("length"@[0] != "percentage"@[0]);
    assert("angle"@[0] != "percentage"@[0]);
    assert("length"@[0] != "angle"@[0]);
    let z = seq![CssValueView::Zero] + rest;
    assert(z.drop_first() =~= rest);
    assert(Seq::<CssValueView>::empty() + seq![CssValueView::Zero] =~= seq![CssValueView::Zero]);
    let u = length_units();
    assert(u[24] == "px"@);
    assert(u[2] == "em"@);
    assert(u[8] == "rem"@);
    reveal_strlit("deg");
    let a = angle_units();
    assert(eq_ignore_case(a[0], "deg"@));
    assert forall|i: int| 0 <= i < a.len() implies !eq_ignore_case(#[trigger] a[i], "px"@) by {
        reveal_strlit("grad");
        reveal_strlit("rad");
        reveal_strlit("turn");
        if a[i].len() == 2 {
            assert(ascii_fold(a[i][0]) != ascii_fold("px"@[0]));
        }
    }
}

/// Law: a keyword matches a string value that spells it, whatever the case of its ASCII
/// letters, and no other string; the keyword `none` also matches the value `none`. Matched
/// once, it takes that one value and leaves the rest.
pub proof fn law_keyword_matches(k: Seq<char>, v: Seq<char>, rest: Seq<CssValueView>)
    ensures
        match_component_spec(
            seq![CssValueView::String(v)] + rest,
            ComponentView::GenericKeyword(k, SyntaxComponentMultiplier::Once),
        ) == Some(
            if v.len() == k.len() && forall|i: int| 0 <= i < v.len() ==> #[trigger] ascii_fold(v[i]) == ascii_fold(k[i]) {
                MatchView { remainder: rest, matched: true, matched_values: seq![CssValueView::String(v)] }
            } else {
                MatchView { remainder: seq![CssValueView::String(v)] + rest, matched: false, matched_values: Seq::empty() }
            },
        ),
        match_component_spec(
            seq![CssValueView::NoneValue] + rest,
            ComponentView::GenericKeyword("none"@, SyntaxComponentMultiplier::Once),
        ) == Some(MatchView { remainder: rest, matched: true, matched_values: seq![CssValueView::NoneValue] }),
{
    let i1 = seq![CssValueView::String(v)] + rest;
    assert(i1.drop_first() =~= rest);
    assert(Seq::<CssValueView>::empty() + seq![CssValueView::String(v)] =~= seq![CssValueView::String(v)]);
    let i2 = seq![CssValueView::NoneValue] + rest;
    assert(i2.drop_first() =~= rest);
    assert(Seq::<CssValueView>::empty() + seq![CssValueView::NoneValue] =~= seq![CssValueView::NoneValue]);
    assert(eq_ignore_case("none"@, "none"@));
}

} // verus!
