//! What the window shows: one row per setting, labelled with its key, with a
//! switch for a boolean value and a text field otherwise; and which button a
//! click slot belongs to.

use vstd::prelude::*;
use crate::config::ConfigState;
use crate::flag::{false_word, flag_of, flag_spec, toggled_spec, true_word};
use crate::text::eq_ascii_ci;

verus! {

/// The click slot of the button that writes the edits back.
pub const ACCEPT_SLOT: u64 = 0;

/// The click slot of the button that drops the edits.
pub const DISCARD_SLOT: u64 = 1;

/// The click slot of the switch of the first setting; the switch of the
/// setting at `i` has the slot `FIRST_SWITCH_SLOT + i`.
pub const FIRST_SWITCH_SLOT: u64 = 2;

/// How a setting's value is edited.
#[derive(Clone, Copy, Debug, PartialEq, Eq, Structural)]
pub enum Control {
    /// A switch, showing `on`, that reports clicks on `slot`.
    Switch { on: bool, slot: u64 },
    /// A text field holding the value.
    TextField,
}

/// One row of the window.
#[derive(Debug)]
pub struct Row {
    pub label: String,
    pub control: Control,
}

/// What a click on a slot asks for.
#[derive(Clone, Copy, Debug, PartialEq, Eq, Structural)]
pub enum Action {
    Accept,
    Discard,
    /// Flip the switch of the setting at this index.
    Toggle(usize),
}

/// A setting's key in square brackets.
pub open spec fn label_spec(key: Seq<char>) -> Seq<char> {
    seq!['['] + key + seq![']']
}

/// The control of the setting at `i` whose value is `v`.
pub open spec fn control_spec(i: int, v: Seq<char>) -> Control {
    match flag_spec(v) {
        Some(b) => Control::Switch { on: b, slot: (FIRST_SWITCH_SLOT + i) as u64 },
        None => Control::TextField,
    }
}

/// What a click on `slot` asks for in a window of `n` settings.
pub open spec fn action_spec(slot: u64, n: nat) -> Option<Action> {
    if slot == ACCEPT_SLOT {
        Some(Action::Accept)
    } else if slot == DISCARD_SLOT {
        Some(Action::Discard)
    } else if slot - FIRST_SWITCH_SLOT < n {
        Some(Action::Toggle((slot - FIRST_SWITCH_SLOT) as usize))
    } else {
        None
    }
}

/// A click on a switch turns it the other way and keeps its slot; a text
/// field stays a text field.
pub proof fn lemma_toggle_flips_switch(i: int, v: Seq<char>)
    ensures
        control_spec(i, toggled_spec(v)) == match control_spec(i, v) {
            Control::Switch { on, slot } => Control::Switch { on: !on, slot },
            Control::TextField => Control::TextField,
        },
{
    assert(eq_ascii_ci(true_word(), true_word()));
    assert(eq_ascii_ci(false_word(), false_word()));
    assert(!eq_ascii_ci(false_word(), true_word()));
}

/// The label of a row for `key`.
pub fn label_of(key: &str) -> (r: String)
    ensures
        r@ == label_spec(key@),
{
    let mut s = String::from_str("[");
    s.append(key);
    s.append("]");
    proof {
        reveal_strlit("[");
        reveal_strlit("]");
    }
    s
}

/// The action that a click on `slot` asks for in a window of `n` settings.
pub fn action_for_slot(slot: u64, n: usize) -> (r: Option<Action>)
    ensures
        r == action_spec(slot, n as nat),
{
    if slot == ACCEPT_SLOT {
        Some(Action::Accept)
    } else if slot == DISCARD_SLOT {
        Some(Action::Discard)
    } else if slot - FIRST_SWITCH_SLOT < n as u64 {
        Some(Action::Toggle((slot - FIRST_SWITCH_SLOT) as usize))
    } else {
        None
    }
}

impl ConfigState {
    /// The rows of the window, one per edited setting, in order.
    pub fn rows(&self) -> (r: Vec<Row>)
        requires
            self.nix@.len() + FIRST_SWITCH_SLOT <= u64::MAX,
        ensures
            r@.len() == self.nix@.len(),
            forall|i: int|
                0 <= i < r@.len() ==> (#[trigger] r@[i]).label@ == label_spec(self.nix@[i].0@)
                    && r@[i].control == control_spec(i, self.nix@[i].1@),
    {
        let mut out: Vec<Row> = Vec::new();
        let mut i: usize = 0;
        while i < self.nix.len()
            invariant
                i <= self.nix@.len(),
                self.nix@.len() + FIRST_SWITCH_SLOT <= u64::MAX,
                out@.len() == i,
                forall|j: int|
                    0 <= j < i ==> (#[trigger] out@[j]).label@ == label_spec(self.nix@[j].0@)
                        && out@[j].control == control_spec(j, self.nix@[j].1@),
            decreases self.nix@.len() - i,
        {
            let label = label_of(self.nix[i].0.as_str());
            let control = match flag_of(self.nix[i].1.as_str()) {
                Some(b) => Control::Switch { on: b, slot: FIRST_SWITCH_SLOT + i as u64 },
                None => Control::TextField,
            };
            out.push(Row { label, control });
            i = i + 1;
        }
        out
    }
}

} // verus!
