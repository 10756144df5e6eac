//! Gamepad buttons by name, and the action map read from configuration.
use vstd::prelude::*;

use crate::config::GamepadConfig;

verus! {

/// One logical gamepad button.
#[derive(Clone, Copy, PartialEq, Eq, Structural, Hash, Debug)]
pub enum Btn {
    A,
    B,
    X,
    Y,
    L1,
    R1,
    L2,
    R2,
    Start,
    Select,
}

/// What `str::to_uppercase` returns for a text.
pub uninterp spec fn upper_of(s: Seq<char>) -> Seq<char>;

/// Relies on `str::to_uppercase`: the upper-case form of the text.
#[verifier::external_body]
fn to_upper(s: &str) -> (r: String)
    ensures
        r@ == upper_of(s@),
{
    s.to_uppercase()
}

/// The button an upper-case name denotes.
pub open spec fn button_named(u: Seq<char>) -> Option<Btn> {
    if u == "A"@ || u == "SOUTH"@ {
        Some(Btn::A)
    } else if u == "B"@ || u == "EAST"@ {
        Some(Btn::B)
    } else if u == "X"@ || u == "WEST"@ {
        Some(Btn::X)
    } else if u == "Y"@ || u == "NORTH"@ {
        Some(Btn::Y)
    } else if u == "L1"@ || u == "LB"@ || u == "LEFTTRIGGER"@ {
        Some(Btn::L1)
    } else if u == "R1"@ || u == "RB"@ || u == "RIGHTTRIGGER"@ {
        Some(Btn::R1)
    } else if u == "L2"@ || u == "LT"@ || u == "LEFTTRIGGER2"@ {
        Some(Btn::L2)
    } else if u == "R2"@ || u == "RT"@ || u == "RIGHTTRIGGER2"@ {
        Some(Btn::R2)
    } else if u == "START"@ {
        Some(Btn::Start)
    } else if u == "SELECT"@ || u == "BACK"@ {
        Some(Btn::Select)
    } else {
        None
    }
}

fn same(a: &str, b: &str) -> (r: bool)
    ensures
        r == (a@ == b@),
{
    let n = a.unicode_len();
    if n != b.unicode_len() {
        return false;
    }
    let mut i: usize = 0;
    while i < n
        invariant
            i <= n,
            n == a@.len() && n == b@.len(),
            forall|k: int| 0 <= k < i ==> a@[k] == b@[k],
        decreases n - i,
    {
        if a.get_char(i) != b.get_char(i) {
            return false;
        }
        i = i + 1;
    }
    assert(a@ =~= b@);
    true
}

/// The button of an upper-case name.
pub fn button_of_upper(u: &str) -> (r: Option<Btn>)
    ensures
        r == button_named(u@),
{
    if same(u, "A") || same(u, "SOUTH") {
        Some(Btn::A)
    } else if same(u, "B") || same(u, "EAST") {
        Some(Btn::B)
    } else if same(u, "X") || same(u, "WEST") {
        Some(Btn::X)
    } else if same(u, "Y") || same(u, "NORTH") {
        Some(Btn::Y)
    } else if same(u, "L1") || same(u, "LB") || same(u, "LEFTTRIGGER") {
        Some(Btn::L1)
    } else if same(u, "R1") || same(u, "RB") || same(u, "RIGHTTRIGGER") {
        Some(Btn::R1)
    } else if same(u, "L2") || same(u, "LT") || same(u, "LEFTTRIGGER2") {
        Some(Btn::L2)
    } else if same(u, "R2") || same(u, "RT") || same(u, "RIGHTTRIGGER2") {
        Some(Btn::R2)
    } else if same(u, "START") {
        Some(Btn::Start)
    } else if same(u, "SELECT") || same(u, "BACK") {
        Some(Btn::Select)
    } else {
        None
    }
}

impl Btn {
    /// The button a configuration name denotes, case-insensitively.
    pub fn from_name(s: &str) -> (r: Option<Btn>)
        ensures
            r == button_named(upper_of(s@)),
    {
        let u = to_upper(s);
        button_of_upper(u.as_str())
    }
}

/// Position of a button in per-button tables.
pub fn btn_index(b: Btn) -> (r: usize)
    ensures
        r < 10,
        forall|c: Btn| btn_index_spec(c) == r ==> c == b,
        r == btn_index_spec(b),
{
    match b {
        Btn::A => 0,
        Btn::B => 1,
        Btn::X => 2,
        Btn::Y => 3,
        Btn::L1 => 4,
        Btn::R1 => 5,
        Btn::L2 => 6,
        Btn::R2 => 7,
        Btn::Start => 8,
        Btn::Select => 9,
    }
}

pub open spec fn btn_index_spec(b: Btn) -> usize {
    match b {
        Btn::A => 0,
        Btn::B => 1,
        Btn::X => 2,
        Btn::Y => 3,
        Btn::L1 => 4,
        Btn::R1 => 5,
        Btn::L2 => 6,
        Btn::R2 => 7,
        Btn::Start => 8,
        Btn::Select => 9,
    }
}

/// Some name of the list denotes the button.
pub open spec fn named_in(names: Seq<String>, b: Btn) -> bool {
    exists|j: int| 0 <= j < names.len() && button_named(upper_of(#[trigger] names[j]@)) == Some(b)
}

/// The buttons of a list of names, unknown names skipped.
pub fn parse_button_list(names: &Vec<String>) -> (r: Vec<Btn>)
    ensures
        r@.len() <= names@.len(),
        forall|i: int| 0 <= i < r@.len() ==> named_in(names@, #[trigger] r@[i]),
{
    let mut out: Vec<Btn> = Vec::new();
    let mut i: usize = 0;
    while i < names.len()
        invariant
            i <= names@.len(),
            out@.len() <= i,
            forall|k: int| 0 <= k < out@.len() ==> named_in(names@, #[trigger] out@[k]),
        decreases names.len() - i,
    {
        match Btn::from_name(names[i].as_str()) {
            Some(b) => {
                out.push(b);
                assert(button_named(upper_of(names@[i as int]@)) == Some(b));
            },
            None => {},
        }
        i = i + 1;
    }
    out
}

/// Buttons bound to each action.
pub struct ActionMap {
    pub hack_left: Vec<Btn>,
    pub hack_right: Vec<Btn>,
    pub confirm: Vec<Btn>,
    pub cancel: Vec<Btn>,
    pub restart: Vec<Btn>,
}

impl ActionMap {
    /// The default bindings.
    pub fn defaults() -> (r: ActionMap)
        ensures
            r.hack_left@ == seq![Btn::B, Btn::Y, Btn::L1],
            r.hack_right@ == seq![Btn::A, Btn::X, Btn::R1],
            r.confirm@ == seq![Btn::Start],
            r.cancel@ == seq![Btn::Select],
            r.restart@ == seq![Btn::Start],
    {
        ActionMap {
            hack_left: vec![Btn::B, Btn::Y, Btn::L1],
            hack_right: vec![Btn::A, Btn::X, Btn::R1],
            confirm: vec![Btn::Start],
            cancel: vec![Btn::Select],
            restart: vec![Btn::Start],
        }
    }

    /// Take the configured bindings; an action whose names denote no button
    /// keeps its current binding.
    pub fn load_button_config(&mut self, cfg: &GamepadConfig)
        ensures
            cfg.hack_left@.len() == 0 ==> final(self).hack_left@ == old(self).hack_left@,
            cfg.hack_right@.len() == 0 ==> final(self).hack_right@ == old(self).hack_right@,
            cfg.confirm@.len() == 0 ==> final(self).confirm@ == old(self).confirm@,
            cfg.cancel@.len() == 0 ==> final(self).cancel@ == old(self).cancel@,
            cfg.restart@.len() == 0 ==> final(self).restart@ == old(self).restart@,
    {
        let hl = parse_button_list(&cfg.hack_left);
        if hl.len() > 0 {
            self.hack_left = hl;
        }
        let hr = parse_button_list(&cfg.hack_right);
        if hr.len() > 0 {
            self.hack_right = hr;
        }
        let cf = parse_button_list(&cfg.confirm);
        if cf.len() > 0 {
            self.confirm = cf;
        }
        let ca = parse_button_list(&cfg.cancel);
        if ca.len() > 0 {
            self.cancel = ca;
        }
        let rs = parse_button_list(&cfg.restart);
        if rs.len() > 0 {
            self.restart = rs;
        }
    }
}

} // verus!
