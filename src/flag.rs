//! Settings whose value reads as a boolean are shown as a switch; flipping the
//! switch swaps `true` and `false`.

use vstd::prelude::*;
use crate::text::{eq_ascii_ci, eq_ignore_ascii_case};

verus! {

pub open spec fn true_word() -> Seq<char> {
    seq!['t', 'r', 'u', 'e']
}

pub open spec fn false_word() -> Seq<char> {
    seq!['f', 'a', 'l', 's', 'e']
}

/// The boolean a value stands for, if it is `true` or `false` in any ASCII case.
pub open spec fn flag_spec(v: Seq<char>) -> Option<bool> {
    if eq_ascii_ci(v, true_word()) {
        Some(true)
    } else if eq_ascii_ci(v, false_word()) {
        Some(false)
    } else {
        None
    }
}

/// A value after its switch is flipped: a boolean becomes the lower-case word
/// of the other boolean; any other value is kept as it is.
pub open spec fn toggled_spec(v: Seq<char>) -> Seq<char> {
    match flag_spec(v) {
        Some(true) => false_word(),
        Some(false) => true_word(),
        None => v,
    }
}

/// The boolean that `value` stands for, or `None` where it is no boolean.
pub fn flag_of(value: &str) -> (r: Option<bool>)
    ensures
        r == flag_spec(value@),
{
    let t = "true";
    let f = "false";
    proof {
        reveal_strlit("true");
        reveal_strlit("false");
        assert(t@ =~= true_word());
        assert(f@ =~= false_word());
    }
    if eq_ignore_ascii_case(value, t) {
        Some(true)
    } else if eq_ignore_ascii_case(value, f) {
        Some(false)
    } else {
        None
    }
}

/// `value` with its switch flipped.
pub fn toggled(value: &str) -> (r: String)
    ensures
        r@ == toggled_spec(value@),
{
    let t = "true";
    let f = "false";
    proof {
        reveal_strlit("true");
        reveal_strlit("false");
        assert(t@ =~= true_word());
        assert(f@ =~= false_word());
    }
    match flag_of(value) {
        Some(true) => String::from_str(f),
        Some(false) => String::from_str(t),
        None => String::from_str(value),
    }
}

/// Flipping a switch twice gives its value back in lower case: equal to it
/// without case, and the same boolean.
pub proof fn lemma_toggle_twice(v: Seq<char>)
    requires
        flag_spec(v) is Some,
    ensures
        toggled_spec(toggled_spec(v)) == if flag_spec(v) == Some(true) {
            true_word()
        } else {
            false_word()
        },
        eq_ascii_ci(toggled_spec(toggled_spec(v)), v),
        flag_spec(toggled_spec(toggled_spec(v))) == flag_spec(v),
{
    assert(eq_ascii_ci(true_word(), true_word()));
    assert(eq_ascii_ci(false_word(), false_word()));
    assert(!eq_ascii_ci(false_word(), true_word()));
}

} // verus!
