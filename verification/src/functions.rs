//! The `var()` function: custom properties (`--name`) looked up in a variable environment.
use vstd::prelude::*;
use crate::css_value::{values_view, CssValue, CssValueView};
use crate::text::{chars_eq, chars_of, string_of};

verus! {

/// The values of custom properties, by name (without the leading `--`).
pub struct VariableEnvironment {
    pub values: Vec<(String, CssValue)>,
}

/// The value of the first entry named `name`, if any.
pub open spec fn env_lookup(s: Seq<(String, CssValue)>, name: Seq<char>) -> Option<CssValueView>
    decreases s.len(),
{
    if s.len() == 0 {
        None
    } else if s[0].0@ == name {
        Some(s[0].1@)
    } else {
        env_lookup(s.skip(1), name)
    }
}

impl VariableEnvironment {
    /// An environment without variables.
    pub fn new() -> (e: Self)
        ensures
            e.values@.len() == 0,
    {
        VariableEnvironment { values: Vec::new() }
    }

    /// The value of variable `name`, if the environment has it.
    pub fn get(&self, name: &str) -> (r: Option<CssValue>)
        ensures
            match env_lookup(self.values@, name@) {
                Some(v) => r is Some && r->0@ == v,
                None => r is None,
            },
    {
        let k = chars_of(name);
        let mut i: usize = 0;
        assert(self.values@.skip(0) =~= self.values@);
        while i < self.values.len()
            invariant
                i <= self.values.len(),
                k@ == name@,
                env_lookup(self.values@, name@) == env_lookup(self.values@.skip(i as int), name@),
            decreases self.values.len() - i,
        {
            assert(self.values@.skip(i as int).skip(1) =~= self.values@.skip(i + 1));
            if chars_eq(&chars_of(self.values[i].0.as_str()), &k) {
                return Some(self.values[i].1.copy());
            }
            i += 1;
        }
        None
    }
}

impl Default for VariableEnvironment {
    fn default() -> (e: Self)
        ensures
            e.values@.len() == 0,
    {
        Self::new()
    }
}

/// The name of the variable that a value of `var()` names: a string without its leading
/// `--`; other values name no variable (the empty name).
pub open spec fn variable_name(v: CssValueView) -> Seq<char> {
    match v {
        CssValueView::String(s) => if s.len() >= 2 && s[0] == '-' && s[1] == '-' {
            s.skip(2)
        } else {
            s
        },
        _ => Seq::empty(),
    }
}

/// The name of the variable that a value of `var()` names.
fn name_of(v: &CssValue) -> (r: String)
    ensures
        r@ == variable_name(v@),
{
    match v {
        CssValue::String(s) => {
            let cs = chars_of(s.as_str());
            if cs.len() >= 2 && cs[0] == '-' && cs[1] == '-' {
                let mut out: Vec<char> = Vec::new();
                let mut i: usize = 2;
                while i < cs.len()
                    invariant
                        2 <= i <= cs.len(),
                        out@ == cs@.subrange(2, i as int),
                    decreases cs.len() - i,
                {
                    out.push(cs[i]);
                    assert(out@ =~= cs@.subrange(2, i + 1));
                    i += 1;
                }
                assert(out@ =~= cs@.skip(2));
                string_of(out.as_slice())
            } else {
                s.clone()
            }
        },
        _ => {
            let r = String::new();
            assert(r@ =~= Seq::<char>::empty());
            r
        },
    }
}

/// What `var(values)` gives: the value of the variable named by the first value, looked up in
/// the environment of the node (which holds no variables yet), or else the fallback (the
/// second value) when there is one; nothing without values.
pub fn resolve_var(values: &[CssValue]) -> (r: Vec<CssValue>)
    ensures
        values@.len() == 0 ==> r@.len() == 0,
        values@.len() == 1 ==> r@.len() == 0,
        values@.len() >= 2 ==> values_view(r@) == seq![values@[1]@],
{
    if values.len() == 0 {
        return Vec::new();
    }
    let name = name_of(&values[0]);
    let environment = VariableEnvironment::default();
    match environment.get(name.as_str()) {
        Some(value) => {
            proof {
                assert(false);
            }
            vec![value]
        },
        None => {
            if values.len() < 2 {
                return Vec::new();
            }
            let r = vec![values[1].copy()];
            proof {
                crate::css_value::lemma_values_view(r@);
            }
            r
        },
    }
}

} // verus!
