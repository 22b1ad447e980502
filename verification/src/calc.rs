//! Parsing of CSS `calc()` expressions for the layouter: `+ - * /`, parentheses, unary minus
//! and numbers with units. Numbers keep the text they were written with; evaluating an
//! expression against a basis size is left to the caller.
use vstd::prelude::*;
use crate::css_value::Number;
use crate::scan::{is_digit, trim, trim_chars};
use crate::text::{chars_of, string_of};

verus! {

/// The unit of a number in a calc expression.
#[derive(Debug, Clone, Copy, PartialEq, Eq, Structural)]
pub enum Unit {
    /// No unit
    Unitless,
    /// `px`
    Px,
    /// `em`
    Em,
    /// `rem`
    Rem,
    /// `%`
    Percent,
    /// Any other unit we don't yet handle (treated as a unitless number).
    Other,
}

/// A token of a calc expression.
#[derive(Debug, PartialEq, Eq)]
pub enum Token {
    Number(Number, Unit),
    Plus,
    Minus,
    Star,
    Slash,
    LParen,
    RParen,
}

/// A token as a mathematical value.
pub enum TokenView {
    Number(Seq<char>, Unit),
    Plus,
    Minus,
    Star,
    Slash,
    LParen,
    RParen,
}

impl View for Token {
    type V = TokenView;

    open spec fn view(&self) -> TokenView {
        match self {
            Token::Number(n, u) => TokenView::Number(n.text@, *u),
            Token::Plus => TokenView::Plus,
            Token::Minus => TokenView::Minus,
            Token::Star => TokenView::Star,
            Token::Slash => TokenView::Slash,
            Token::LParen => TokenView::LParen,
            Token::RParen => TokenView::RParen,
        }
    }
}

/// A node in a parsed calc expression tree.
#[derive(Debug, PartialEq, Eq)]
pub enum CalcNode {
    /// An absolute length: the number written and the factor that turns it into pixels (16
    /// for `em` and `rem`, 1 otherwise).
    Length(Number, u32),
    /// A percentage of the basis: the number written, a hundredth of which is the fraction.
    Percent(Number),
    /// A dimensionless number (used as a multiplier).
    Number(Number),
    Add(Box<CalcNode>, Box<CalcNode>),
    Sub(Box<CalcNode>, Box<CalcNode>),
    Mul(Box<CalcNode>, Box<CalcNode>),
    Div(Box<CalcNode>, Box<CalcNode>),
}

/// A calc expression tree as a mathematical value.
pub enum NodeView {
    Length(Seq<char>, u32),
    Percent(Seq<char>),
    Number(Seq<char>),
    Add(Box<NodeView>, Box<NodeView>),
    Sub(Box<NodeView>, Box<NodeView>),
    Mul(Box<NodeView>, Box<NodeView>),
    Div(Box<NodeView>, Box<NodeView>),
}

/// The value of a calc node.
pub open spec fn node_view(n: CalcNode) -> NodeView
    decreases n,
{
    match n {
        CalcNode::Length(v, f) => NodeView::Length(v.text@, f),
        CalcNode::Percent(v) => NodeView::Percent(v.text@),
        CalcNode::Number(v) => NodeView::Number(v.text@),
        CalcNode::Add(l, r) => NodeView::Add(Box::new(node_view(*l)), Box::new(node_view(*r))),
        CalcNode::Sub(l, r) => NodeView::Sub(Box::new(node_view(*l)), Box::new(node_view(*r))),
        CalcNode::Mul(l, r) => NodeView::Mul(Box::new(node_view(*l)), Box::new(node_view(*r))),
        CalcNode::Div(l, r) => NodeView::Div(Box::new(node_view(*l)), Box::new(node_view(*r))),
    }
}

impl View for CalcNode {
    type V = NodeView;

    open spec fn view(&self) -> NodeView {
        node_view(*self)
    }
}

/// A parsed CSS `calc()` expression.
#[derive(Debug, PartialEq, Eq)]
pub struct CalcExpr(pub CalcNode);

// ---------------------------------------------------------------------------------------
// Specification.

/// The body of a calc expression: trimmed; where a `calc(` or `CALC(` prefix is written,
/// without it and without the `)` that closes it (when it is there); trimmed again. A body
/// given without the wrapper is kept as it is.
pub open spec fn body_of(input: Seq<char>) -> Seq<char> {
    let trimmed = trim(input);
    let wrapped = trimmed.len() >= 5 && (trimmed.take(5) == "calc("@ || trimmed.take(5) == "CALC("@);
    let without_prefix = if wrapped {
        trimmed.skip(5)
    } else {
        trimmed
    };
    let without_suffix = if wrapped && without_prefix.len() > 0 && without_prefix.last() == ')' {
        without_prefix.drop_last()
    } else {
        without_prefix
    };
    trim(without_suffix)
}

/// A character of a number: a digit or a decimal point.
pub open spec fn is_number_char(c: char) -> bool {
    is_digit(c) || c == '.'
}

/// A character of a unit: an ASCII letter or `%`.
pub open spec fn is_unit_char(c: char) -> bool {
    ('a' <= c && c <= 'z') || ('A' <= c && c <= 'Z') || c == '%'
}

/// The end of the run of number characters from `p`.
pub open spec fn number_run(s: Seq<char>, p: int) -> int
    decreases s.len() - p,
{
    if 0 <= p < s.len() && is_number_char(s[p]) {
        number_run(s, p + 1)
    } else {
        p
    }
}

/// The end of the run of unit characters from `p`.
pub open spec fn unit_run(s: Seq<char>, p: int) -> int
    decreases s.len() - p,
{
    if 0 <= p < s.len() && is_unit_char(s[p]) {
        unit_run(s, p + 1)
    } else {
        p
    }
}

/// A run never moves backwards and stays inside the input.
pub proof fn lemma_number_run(s: Seq<char>, p: int)
    requires
        0 <= p <= s.len(),
    ensures
        p <= number_run(s, p) <= s.len(),
    decreases s.len() - p,
{
    if p < s.len() && is_number_char(s[p]) {
        lemma_number_run(s, p + 1);
    }
}

/// A run never moves backwards and stays inside the input.
pub proof fn lemma_unit_run(s: Seq<char>, p: int)
    requires
        0 <= p <= s.len(),
    ensures
        p <= unit_run(s, p) <= s.len(),
    decreases s.len() - p,
{
    if p < s.len() && is_unit_char(s[p]) {
        lemma_unit_run(s, p + 1);
    }
}

/// The number of decimal points in `t`.
pub open spec fn count_points(t: Seq<char>) -> nat
    decreases t.len(),
{
    if t.len() == 0 {
        0
    } else {
        count_points(t.drop_last()) + if t.last() == '.' {
            1nat
        } else {
            0nat
        }
    }
}

/// Digits and decimal points that read as a float: at most one point and at least one digit.
pub open spec fn valid_number(t: Seq<char>) -> bool {
    count_points(t) <= 1 && count_points(t) < t.len()
}

/// The unit written as `u`.
pub open spec fn unit_of(u: Seq<char>) -> Unit {
    if u.len() == 0 {
        Unit::Unitless
    } else if u == "px"@ {
        Unit::Px
    } else if u == "em"@ {
        Unit::Em
    } else if u == "rem"@ {
        Unit::Rem
    } else if u == "%"@ {
        Unit::Percent
    } else {
        Unit::Other
    }
}

/// The tokens of `s` from position `p` on. Characters that start no token are skipped; the
/// tokens end at the end of the input or at a number that does not read as a float.
pub open spec fn tokens_from(s: Seq<char>, p: int) -> Seq<TokenView>
    decreases s.len() - p,
{
    if p < 0 || p >= s.len() {
        Seq::empty()
    } else {
        let c = s[p];
        if c == '+' {
            seq![TokenView::Plus] + tokens_from(s, p + 1)
        } else if c == '-' {
            seq![TokenView::Minus] + tokens_from(s, p + 1)
        } else if c == '*' {
            seq![TokenView::Star] + tokens_from(s, p + 1)
        } else if c == '/' {
            seq![TokenView::Slash] + tokens_from(s, p + 1)
        } else if c == '(' {
            seq![TokenView::LParen] + tokens_from(s, p + 1)
        } else if c == ')' {
            seq![TokenView::RParen] + tokens_from(s, p + 1)
        } else if is_number_char(c) {
            let e = number_run(s, p + 1);
            proof {
                lemma_number_run(s, p + 1);
                lemma_unit_run(s, e);
            }
            let text = s.subrange(p, e);
            if valid_number(text) {
                let f = unit_run(s, e);
                if e <= f <= s.len() {
                    seq![TokenView::Number(text, unit_of(s.subrange(e, f)))] + tokens_from(s, f)
                } else {
                    Seq::empty()
                }
            } else {
                Seq::empty()
            }
        } else {
            tokens_from(s, p + 1)
        }
    }
}

/// The leaf that a number token stands for.
pub open spec fn leaf(text: Seq<char>, u: Unit) -> NodeView {
    match u {
        Unit::Px => NodeView::Length(text, 1),
        Unit::Em | Unit::Rem => NodeView::Length(text, 16),
        Unit::Percent => NodeView::Percent(text),
        Unit::Unitless | Unit::Other => NodeView::Number(text),
    }
}

/// An expression: terms separated by `+` or `-`, associating to the left.
pub open spec fn expr_at(ts: Seq<TokenView>, i: int) -> Option<(int, NodeView)>
    decreases ts.len() - i, 3int,
{
    match term_at(ts, i) {
        Some((j, lhs)) => if i < j <= ts.len() {
            expr_rest(ts, j, lhs)
        } else {
            None
        },
        None => None,
    }
}

/// The rest of an expression after the term(s) `lhs`, from token `j` on.
pub open spec fn expr_rest(ts: Seq<TokenView>, j: int, lhs: NodeView) -> Option<(int, NodeView)>
    decreases ts.len() - j, 3int,
{
    if 0 <= j < ts.len() && (ts[j] is Plus || ts[j] is Minus) {
        match term_at(ts, j + 1) {
            Some((k, rhs)) => {
                let node = if ts[j] is Plus {
                    NodeView::Add(Box::new(lhs), Box::new(rhs))
                } else {
                    NodeView::Sub(Box::new(lhs), Box::new(rhs))
                };
                if j < k <= ts.len() {
                    expr_rest(ts, k, node)
                } else {
                    None
                }
            },
            None => None,
        }
    } else {
        Some((j, lhs))
    }
}

/// A term: atoms separated by `*` or `/`, associating to the left.
pub open spec fn term_at(ts: Seq<TokenView>, i: int) -> Option<(int, NodeView)>
    decreases ts.len() - i, 2int,
{
    match atom_at(ts, i) {
        Some((j, lhs)) => if i < j <= ts.len() {
            term_rest(ts, j, lhs)
        } else {
            None
        },
        None => None,
    }
}

/// The rest of a term after the atom(s) `lhs`, from token `j` on.
pub open spec fn term_rest(ts: Seq<TokenView>, j: int, lhs: NodeView) -> Option<(int, NodeView)>
    decreases ts.len() - j, 2int,
{
    if 0 <= j < ts.len() && (ts[j] is Star || ts[j] is Slash) {
        match atom_at(ts, j + 1) {
            Some((k, rhs)) => {
                let node = if ts[j] is Star {
                    NodeView::Mul(Box::new(lhs), Box::new(rhs))
                } else {
                    NodeView::Div(Box::new(lhs), Box::new(rhs))
                };
                if j < k <= ts.len() {
                    term_rest(ts, k, node)
                } else {
                    None
                }
            },
            None => None,
        }
    } else {
        Some((j, lhs))
    }
}

/// An atom: a number, an expression in parentheses, or a unary minus before an atom (which
/// reads as zero minus the atom).
pub open spec fn atom_at(ts: Seq<TokenView>, i: int) -> Option<(int, NodeView)>
    decreases ts.len() - i, 1int,
{
    if i < 0 || i >= ts.len() {
        None
    } else {
        match ts[i] {
            TokenView::Number(text, u) => Some((i + 1, leaf(text, u))),
            TokenView::LParen => match expr_at(ts, i + 1) {
                Some((j, inner)) => if 0 <= j < ts.len() && ts[j] is RParen {
                    Some((j + 1, inner))
                } else {
                    None
                },
                None => None,
            },
            TokenView::Minus => match atom_at(ts, i + 1) {
                Some((j, inner)) => Some((j, NodeView::Sub(Box::new(NodeView::Number("0"@)), Box::new(inner)))),
                None => None,
            },
            _ => None,
        }
    }
}

/// The expression that `input` reads as: its body must read as one expression using all of
/// its tokens.
pub open spec fn calc_parse(input: Seq<char>) -> Option<NodeView> {
    let ts = tokens_from(body_of(input), 0);
    match expr_at(ts, 0) {
        Some((j, n)) => if j == ts.len() {
            Some(n)
        } else {
            None
        },
        None => None,
    }
}

/// Law: the units of calc: `px` is a length of one pixel per unit, `em` and `rem` lengths of
/// sixteen pixels per unit, `%` a percentage; no unit, or any other unit, a plain number.
pub proof fn law_calc_units(t: Seq<char>, u: Seq<char>)
    ensures
        leaf(t, unit_of("px"@)) == NodeView::Length(t, 1),
        leaf(t, unit_of("em"@)) == NodeView::Length(t, 16),
        leaf(t, unit_of("rem"@)) == NodeView::Length(t, 16),
        leaf(t, unit_of("%"@)) == NodeView::Percent(t),
        leaf(t, unit_of(Seq::empty())) == NodeView::Number(t),
        u != "px"@ && u != "em"@ && u != "rem"@ && u != "%"@ ==> leaf(t, unit_of(u)) == NodeView::Number(t),
{
    reveal_strlit("px");
    reveal_strlit("em");
    reveal_strlit("rem");
    reveal_strlit("%");
    assert("px"@[0] != "em"@[0]);
    assert("px"@.len() != "rem"@.len());
    assert("px"@.len() != "%"@.len());
    assert("em"@.len() != "rem"@.len());
    assert("em"@.len() != "%"@.len());
    assert("rem"@.len() != "%"@.len());
}

/// Law: in calc, `*` and `/` bind tighter than `+` and `-`, and operators of the same strength
/// associate to the left: `a + b * c` is `a + (b * c)`, `a * b + c` is `(a * b) + c`,
/// `a - b - c` is `(a - b) - c`, `a / b / c` is `(a / b) / c`; parentheses group first.
pub proof fn law_calc_precedence(a: Seq<char>, b: Seq<char>, c: Seq<char>, ua: Unit, ub: Unit, uc: Unit)
    ensures
        ({
            let x = TokenView::Number(a, ua);
            let y = TokenView::Number(b, ub);
            let z = TokenView::Number(c, uc);
            let (la, lb, lc) = (leaf(a, ua), leaf(b, ub), leaf(c, uc));
            &&& expr_at(seq![x, TokenView::Plus, y, TokenView::Star, z], 0) == Some(
                (5int, NodeView::Add(Box::new(la), Box::new(NodeView::Mul(Box::new(lb), Box::new(lc))))),
            )
            &&& expr_at(seq![x, TokenView::Star, y, TokenView::Plus, z], 0) == Some(
                (5int, NodeView::Add(Box::new(NodeView::Mul(Box::new(la), Box::new(lb))), Box::new(lc))),
            )
            &&& expr_at(seq![x, TokenView::Minus, y, TokenView::Minus, z], 0) == Some(
                (5int, NodeView::Sub(Box::new(NodeView::Sub(Box::new(la), Box::new(lb))), Box::new(lc))),
            )
            &&& expr_at(seq![x, TokenView::Slash, y, TokenView::Slash, z], 0) == Some(
                (5int, NodeView::Div(Box::new(NodeView::Div(Box::new(la), Box::new(lb))), Box::new(lc))),
            )
            &&& expr_at(seq![x, TokenView::Star, TokenView::LParen, y, TokenView::Plus, z, TokenView::RParen], 0) == Some(
                (7int, NodeView::Mul(Box::new(la), Box::new(NodeView::Add(Box::new(lb), Box::new(lc))))),
            )
        }),
{
    let x = TokenView::Number(a, ua);
    let y = TokenView::Number(b, ub);
    let z = TokenView::Number(c, uc);
    let (la, lb, lc) = (leaf(a, ua), leaf(b, ub), leaf(c, uc));
    let t1 = seq![x, TokenView::Plus, y, TokenView::Star, z];
    assert(atom_at(t1, 0) == Some((1int, la)));
    assert(term_rest(t1, 1, la) == Some((1int, la)));
    assert(atom_at(t1, 2) == Some((3int, lb)));
    assert(atom_at(t1, 4) == Some((5int, lc)));
    assert(term_rest(t1, 5, NodeView::Mul(Box::new(lb), Box::new(lc))) == Some((5int, NodeView::Mul(Box::new(lb), Box::new(lc)))));
    assert(term_rest(t1, 3, lb) == Some((5int, NodeView::Mul(Box::new(lb), Box::new(lc)))));
    assert(term_at(t1, 2) == Some((5int, NodeView::Mul(Box::new(lb), Box::new(lc)))));
    assert(term_at(t1, 0) == Some((1int, la)));
    let n1 = NodeView::Add(Box::new(la), Box::new(NodeView::Mul(Box::new(lb), Box::new(lc))));
    assert(expr_rest(t1, 5, n1) == Some((5int, n1)));
    assert(expr_rest(t1, 1, la) == Some((5int, n1)));

    let t2 = seq![x, TokenView::Star, y, TokenView::Plus, z];
    let m = NodeView::Mul(Box::new(la), Box::new(lb));
    assert(atom_at(t2, 0) == Some((1int, la)));
    assert(atom_at(t2, 2) == Some((3int, lb)));
    assert(term_rest(t2, 3, m) == Some((3int, m)));
    assert(term_rest(t2, 1, la) == Some((3int, m)));
    assert(term_at(t2, 0) == Some((3int, m)));
    assert(atom_at(t2, 4) == Some((5int, lc)));
    assert(term_rest(t2, 5, lc) == Some((5int, lc)));
    assert(term_at(t2, 4) == Some((5int, lc)));
    let n2 = NodeView::Add(Box::new(m), Box::new(lc));
    assert(expr_rest(t2, 5, n2) == Some((5int, n2)));
    assert(expr_rest(t2, 3, m) == Some((5int, n2)));

    let t3 = seq![x, TokenView::Minus, y, TokenView::Minus, z];
    assert(atom_at(t3, 0) == Some((1int, la)));
    assert(term_rest(t3, 1, la) == Some((1int, la)));
    assert(term_at(t3, 0) == Some((1int, la)));
    assert(atom_at(t3, 2) == Some((3int, lb)));
    assert(term_rest(t3, 3, lb) == Some((3int, lb)));
    assert(term_at(t3, 2) == Some((3int, lb)));
    assert(atom_at(t3, 4) == Some((5int, lc)));
    assert(term_rest(t3, 5, lc) == Some((5int, lc)));
    assert(term_at(t3, 4) == Some((5int, lc)));
    let s1 = NodeView::Sub(Box::new(la), Box::new(lb));
    let n3 = NodeView::Sub(Box::new(s1), Box::new(lc));
    assert(expr_rest(t3, 5, n3) == Some((5int, n3)));
    assert(expr_rest(t3, 3, s1) == Some((5int, n3)));
    assert(expr_rest(t3, 1, la) == Some((5int, n3)));

    let t4 = seq![x, TokenView::Slash, y, TokenView::Slash, z];
    let d = NodeView::Div(Box::new(la), Box::new(lb));
    assert(atom_at(t4, 0) == Some((1int, la)));
    assert(atom_at(t4, 2) == Some((3int, lb)));
    assert(atom_at(t4, 4) == Some((5int, lc)));
    assert(term_rest(t4, 5, NodeView::Div(Box::new(d), Box::new(lc))) == Some((5int, NodeView::Div(Box::new(d), Box::new(lc)))));
    assert(term_rest(t4, 3, d) == Some((5int, NodeView::Div(Box::new(d), Box::new(lc)))));
    assert(term_rest(t4, 1, la) == Some((5int, NodeView::Div(Box::new(d), Box::new(lc)))));
    assert(term_at(t4, 0) == Some((5int, NodeView::Div(Box::new(d), Box::new(lc)))));
    assert(expr_rest(t4, 5, NodeView::Div(Box::new(d), Box::new(lc))) == Some((5int, NodeView::Div(Box::new(d), Box::new(lc)))));

    let t5 = seq![x, TokenView::Star, TokenView::LParen, y, TokenView::Plus, z, TokenView::RParen];
    let s = NodeView::Add(Box::new(lb), Box::new(lc));
    assert(atom_at(t5, 3) == Some((4int, lb)));
    assert(term_rest(t5, 4, lb) == Some((4int, lb)));
    assert(term_at(t5, 3) == Some((4int, lb)));
    assert(atom_at(t5, 5) == Some((6int, lc)));
    assert(term_rest(t5, 6, lc) == Some((6int, lc)));
    assert(term_at(t5, 5) == Some((6int, lc)));
    assert(expr_rest(t5, 6, s) == Some((6int, s)));
    assert(expr_rest(t5, 4, lb) == Some((6int, s)));
    assert(expr_at(t5, 3) == Some((6int, s)));
    assert(atom_at(t5, 2) == Some((7int, s)));
    assert(atom_at(t5, 0) == Some((1int, la)));
    let ms = NodeView::Mul(Box::new(la), Box::new(s));
    assert(term_rest(t5, 7, ms) == Some((7int, ms)));
    assert(term_rest(t5, 1, la) == Some((7int, ms)));
    assert(term_at(t5, 0) == Some((7int, ms)));
    assert(expr_rest(t5, 7, ms) == Some((7int, ms)));
}

// ---------------------------------------------------------------------------------------
// Executable parsing.

/// The body of a calc expression (the contents of `calc(...)`, with or without the wrapper).
pub fn strip_wrapper(input: &str) -> (r: Vec<char>)
    ensures
        r@ == body_of(input@),
{
    let trimmed = trim_chars(&chars_of(input));
    let n = trimmed.len();
    let mut has_prefix = false;
    if n >= 5 {
        let head = crate::scan::sub_chars(&trimmed, 0, 5);
        assert(head@ =~= trimmed@.take(5));
        has_prefix = crate::text::chars_eq(&head, &chars_of("calc(")) || crate::text::chars_eq(&head, &chars_of("CALC("));
    }
    let without_prefix = if has_prefix {
        let v = crate::scan::sub_chars(&trimmed, 5, n);
        assert(v@ =~= trimmed@.skip(5));
        v
    } else {
        trimmed
    };
    let m = without_prefix.len();
    let without_suffix = if has_prefix && m > 0 && without_prefix[m - 1] == ')' {
        let v = crate::scan::sub_chars(&without_prefix, 0, m - 1);
        assert(v@ =~= without_prefix@.drop_last());
        v
    } else {
        without_prefix
    };
    trim_chars(&without_suffix)
}

/// The tokenizer of a calc body.
pub struct Tokenizer {
    chars: Vec<char>,
    pos: usize,
}

impl Tokenizer {
    /// The characters being read.
    pub closed spec fn input(&self) -> Seq<char> {
        self.chars@
    }

    /// The tokens still to come.
    pub closed spec fn remaining(&self) -> Seq<TokenView> {
        tokens_from(self.chars@, self.pos as int)
    }

    /// Well-formedness: the position lies within the input.
    pub closed spec fn wf(&self) -> bool {
        self.pos <= self.chars.len()
    }

    /// A tokenizer of `input`.
    pub fn new(input: &str) -> (t: Self)
        ensures
            t.wf(),
            t.input() == input@,
            t.remaining() == tokens_from(input@, 0),
    {
        Tokenizer { chars: chars_of(input), pos: 0 }
    }

    /// Reads a number whose first character is at `self.pos - 1`, and its unit; `None` when
    /// the digits and points do not read as a float.
    fn tokenize_number(&mut self) -> (r: Option<Token>)
        requires
            old(self).wf(),
            0 < old(self).pos,
            is_number_char(old(self).chars@[old(self).pos - 1]),
        ensures
            final(self).wf(),
            final(self).chars@ == old(self).chars@,
            ({
                let s = old(self).chars@;
                let p = old(self).pos - 1;
                let e = number_run(s, p + 1);
                let text = s.subrange(p, e);
                match r {
                    Some(t) => valid_number(text) && t@ == TokenView::Number(text, unit_of(s.subrange(e, unit_run(s, e))))
                        && final(self).pos == unit_run(s, e),
                    None => !valid_number(text),
                }
            }),
    {
        let start = self.pos - 1;
        let mut points: usize = if self.chars[start] == '.' {
            1
        } else {
            0
        };
        let mut e = self.pos;
        assert(self.chars@.subrange(start as int, e as int) =~= seq![self.chars@[start as int]]);
        assert(seq![self.chars@[start as int]].drop_last() =~= Seq::<char>::empty());
        assert(count_points(Seq::<char>::empty()) == 0);
        while e < self.chars.len() && (('0' <= self.chars[e] && self.chars[e] <= '9') || self.chars[e] == '.')
            invariant
                start < e <= self.chars.len(),
                number_run(self.chars@, start + 1) == number_run(self.chars@, e as int),
                points as nat == count_points(self.chars@.subrange(start as int, e as int)),
                points <= e - start,
            decreases self.chars.len() - e,
        {
            assert(self.chars@.subrange(start as int, e + 1).drop_last() =~= self.chars@.subrange(start as int, e as int));
            if self.chars[e] == '.' {
                points += 1;
            }
            e += 1;
        }
        if !(points <= 1 && points < e - start) {
            return None;
        }
        let mut f = e;
        while f < self.chars.len() && (('a' <= self.chars[f] && self.chars[f] <= 'z') || ('A' <= self.chars[f] && self.chars[f] <= 'Z') || self.chars[f] == '%')
            invariant
                e <= f <= self.chars.len(),
                unit_run(self.chars@, e as int) == unit_run(self.chars@, f as int),
            decreases self.chars.len() - f,
        {
            f += 1;
        }
        let text = string_of(crate::scan::sub_chars(&self.chars, start, e).as_slice());
        let unit_chars = crate::scan::sub_chars(&self.chars, e, f);
        let unit = unit_from(&unit_chars);
        self.pos = f;
        Some(Token::Number(Number { text }, unit))
    }

    /// The next token; `None` at the end of the input or at a number that does not read as a
    /// float.
    pub fn next(&mut self) -> (r: Option<Token>)
        requires
            old(self).wf(),
        ensures
            final(self).wf(),
            final(self).input() == old(self).input(),
            match r {
                Some(t) => old(self).remaining() == seq![t@] + final(self).remaining(),
                None => old(self).remaining().len() == 0,
            },
    {
        loop
            invariant
                self.wf(),
                self.chars@ == old(self).chars@,
                old(self).remaining() == tokens_from(self.chars@, self.pos as int),
            decreases self.chars.len() - self.pos,
        {
            if self.pos >= self.chars.len() {
                return None;
            }
            let c = self.chars[self.pos];
            self.pos = self.pos + 1;
            let t = if c == '+' {
                Token::Plus
            } else if c == '-' {
                Token::Minus
            } else if c == '*' {
                Token::Star
            } else if c == '/' {
                Token::Slash
            } else if c == '(' {
                Token::LParen
            } else if c == ')' {
                Token::RParen
            } else if ('0' <= c && c <= '9') || c == '.' {
                let ghost p0 = self.pos as int;
                proof {
                    lemma_number_run(self.chars@, p0);
                    lemma_unit_run(self.chars@, number_run(self.chars@, p0));
                }
                match self.tokenize_number() {
                    Some(t) => {
                        t
                    },
                    None => {
                        return None;
                    },
                }
            } else {
                continue;
            };
            return Some(t);
        }
    }
}

/// The unit written as `u`.
fn unit_from(u: &Vec<char>) -> (r: Unit)
    ensures
        r == unit_of(u@),
{
    if u.len() == 0 {
        Unit::Unitless
    } else if crate::text::chars_eq(u, &chars_of("px")) {
        Unit::Px
    } else if crate::text::chars_eq(u, &chars_of("em")) {
        Unit::Em
    } else if crate::text::chars_eq(u, &chars_of("rem")) {
        Unit::Rem
    } else if crate::text::chars_eq(u, &chars_of("%")) {
        Unit::Percent
    } else {
        Unit::Other
    }
}

/// All tokens of a calc body.
pub fn tokenize(body: &str) -> (r: Vec<Token>)
    ensures
        r@.map_values(|t: Token| t@) == tokens_from(body@, 0),
{
    let mut t = Tokenizer::new(body);
    let mut out: Vec<Token> = Vec::new();
    loop
        invariant
            t.wf(),
            tokens_from(body@, 0) == out@.map_values(|x: Token| x@) + t.remaining(),
        decreases t.remaining().len(),
    {
        match t.next() {
            Some(x) => {
                let ghost before = out@;
                out.push(x);
                assert(out@.map_values(|y: Token| y@) =~= before.map_values(|y: Token| y@).push(x@));
            },
            None => {
                assert(tokens_from(body@, 0) =~= out@.map_values(|x: Token| x@));
                return out;
            },
        }
    }
}

/// The values of a sequence of tokens.
pub open spec fn token_views(ts: Seq<Token>) -> Seq<TokenView> {
    ts.map_values(|t: Token| t@)
}

/// A parse result as a mathematical value.
pub open spec fn parsed_view(r: Option<(usize, CalcNode)>) -> Option<(int, NodeView)> {
    match r {
        Some((j, n)) => Some((j as int, n@)),
        None => None,
    }
}

/// The leaf node of a number token.
fn leaf_node(n: &Number, u: Unit) -> (r: CalcNode)
    ensures
        r@ == leaf(n.text@, u),
{
    let v = Number { text: n.text.clone() };
    match u {
        Unit::Px => CalcNode::Length(v, 1),
        Unit::Em | Unit::Rem => CalcNode::Length(v, 16),
        Unit::Percent => CalcNode::Percent(v),
        Unit::Unitless | Unit::Other => CalcNode::Number(v),
    }
}

/// Parses an expression from token `i` on: terms separated by `+` or `-`.
pub fn parse_expr(ts: &Vec<Token>, i: usize) -> (r: Option<(usize, CalcNode)>)
    requires
        i <= ts.len(),
    ensures
        parsed_view(r) == expr_at(token_views(ts@), i as int),
        r matches Some((j, n)) ==> i < j <= ts.len(),
    decreases ts.len() - i, 3int,
{
    let ghost tv = token_views(ts@);
    match parse_term(ts, i) {
        None => None,
        Some((j0, first)) => {
            let mut j = j0;
            let mut lhs = first;
            loop
                invariant
                    tv == token_views(ts@),
                    tv.len() == ts.len(),
                    i < j <= ts.len(),
                    expr_at(tv, i as int) == expr_rest(tv, j as int, lhs@),
                decreases ts.len() - j,
            {
                let plus = j < ts.len() && match &ts[j] {
                    Token::Plus => true,
                    _ => false,
                };
                let minus = j < ts.len() && match &ts[j] {
                    Token::Minus => true,
                    _ => false,
                };
                if !plus && !minus {
                    return Some((j, lhs));
                }
                match parse_term(ts, j + 1) {
                    None => {
                        return None;
                    },
                    Some((k, rhs)) => {
                        lhs = if plus {
                            CalcNode::Add(Box::new(lhs), Box::new(rhs))
                        } else {
                            CalcNode::Sub(Box::new(lhs), Box::new(rhs))
                        };
                        j = k;
                    },
                }
            }
        },
    }
}

/// Parses a term from token `i` on: atoms separated by `*` or `/`.
pub fn parse_term(ts: &Vec<Token>, i: usize) -> (r: Option<(usize, CalcNode)>)
    requires
        i <= ts.len(),
    ensures
        parsed_view(r) == term_at(token_views(ts@), i as int),
        r matches Some((j, n)) ==> i < j <= ts.len(),
    decreases ts.len() - i, 2int,
{
    let ghost tv = token_views(ts@);
    match parse_atom(ts, i) {
        None => None,
        Some((j0, first)) => {
            let mut j = j0;
            let mut lhs = first;
            loop
                invariant
                    tv == token_views(ts@),
                    tv.len() == ts.len(),
                    i < j <= ts.len(),
                    term_at(tv, i as int) == term_rest(tv, j as int, lhs@),
                decreases ts.len() - j,
            {
                let star = j < ts.len() && match &ts[j] {
                    Token::Star => true,
                    _ => false,
                };
                let slash = j < ts.len() && match &ts[j] {
                    Token::Slash => true,
                    _ => false,
                };
                if !star && !slash {
                    return Some((j, lhs));
                }
                match parse_atom(ts, j + 1) {
                    None => {
                        return None;
                    },
                    Some((k, rhs)) => {
                        lhs = if star {
                            CalcNode::Mul(Box::new(lhs), Box::new(rhs))
                        } else {
                            CalcNode::Div(Box::new(lhs), Box::new(rhs))
                        };
                        j = k;
                    },
                }
            }
        },
    }
}

/// Parses an atom at token `i`: a number, an expression in parentheses, or a unary minus.
pub fn parse_atom(ts: &Vec<Token>, i: usize) -> (r: Option<(usize, CalcNode)>)
    requires
        i <= ts.len(),
    ensures
        parsed_view(r) == atom_at(token_views(ts@), i as int),
        r matches Some((j, n)) ==> i < j <= ts.len(),
    decreases ts.len() - i, 1int,
{
    if i >= ts.len() {
        return None;
    }
    assert(token_views(ts@)[i as int] == ts@[i as int]@);
    match &ts[i] {
        Token::Number(n, u) => Some((i + 1, leaf_node(n, *u))),
        Token::LParen => match parse_expr(ts, i + 1) {
            Some((j, inner)) => {
                let closed = j < ts.len() && match &ts[j] {
                    Token::RParen => true,
                    _ => false,
                };
                assert(j < ts.len() ==> token_views(ts@)[j as int] == ts@[j as int]@);
                if closed {
                    Some((j + 1, inner))
                } else {
                    None
                }
            },
            None => None,
        },
        Token::Minus => match parse_atom(ts, i + 1) {
            Some((j, inner)) => {
                let zero = CalcNode::Number(Number { text: "0".to_owned() });
                assert(zero@ == NodeView::Number("0"@));
                let node = CalcNode::Sub(Box::new(zero), Box::new(inner));
                assert(node@ == NodeView::Sub(Box::new(NodeView::Number("0"@)), Box::new(inner@)));
                Some((j, node))
            },
            None => None,
        },
        _ => {
            assert(!(token_views(ts@)[i as int] is Number) && !(token_views(ts@)[i as int] is LParen) && !(token_views(ts@)[i as int] is Minus));
            None
        },
    }
}

/// Parses a calc body (the contents of `calc(...)`, with or without the wrapper); `None` when
/// it does not read as one expression.
pub fn parse(input: &str) -> (r: Option<CalcExpr>)
    ensures
        match r {
            Some(e) => calc_parse(input@) == Some(e.0@),
            None => calc_parse(input@) is None,
        },
{
    let body = string_of(strip_wrapper(input).as_slice());
    let tokens = tokenize(body.as_str());
    match parse_expr(&tokens, 0) {
        Some((j, node)) => if j == tokens.len() {
            Some(CalcExpr(node))
        } else {
            None
        },
        None => None,
    }
}

} // verus!
