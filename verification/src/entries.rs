//! Records that the firmware reports for the advanced features.
use vstd::prelude::*;

verus! {

/// A combo: two matrix positions pressed together give `result`.
#[derive(Clone, Copy, Debug, PartialEq, Eq, Structural)]
pub struct ComboEntry {
    pub index: u8,
    pub r1: u8,
    pub c1: u8,
    pub r2: u8,
    pub c2: u8,
    pub result: u16,
}

/// A leader-key sequence and the key (with modifiers) it produces.
pub struct LeaderEntry {
    pub index: u8,
    pub sequence: Vec<u8>,
    pub result: u8,
    pub result_mod: u8,
}

/// One macro step: a key press, or a delay when `keycode` is `0xFF`
/// (then `modifier` counts tens of milliseconds).
#[derive(Clone, Copy, Debug, PartialEq, Eq, Structural)]
pub struct MacroStep {
    pub keycode: u8,
    pub modifier: u8,
}

/// Keycode that marks a delay step.
pub const DELAY_KEYCODE: u8 = 0xFF;

impl MacroStep {
    /// Whether the step is a delay.
    pub fn is_delay(&self) -> (r: bool)
        ensures
            r == (self.keycode == DELAY_KEYCODE),
    {
        self.keycode == DELAY_KEYCODE
    }

    /// The delay of a delay step, in milliseconds.
    pub fn delay_ms(&self) -> (ms: u32)
        ensures
            ms == self.modifier * 10,
    {
        self.modifier as u32 * 10
    }
}

/// A stored macro.
pub struct MacroEntry {
    pub slot: u8,
    pub name: String,
    pub steps: Vec<MacroStep>,
}

/// A copy of a byte vector.
pub fn copy_bytes(v: &Vec<u8>) -> (out: Vec<u8>)
    ensures
        out@ == v@,
{
    let mut out: Vec<u8> = Vec::new();
    let n = v.len();
    let mut i: usize = 0;
    while i < n
        invariant
            n == v@.len(),
            i <= n,
            out@ == v@.take(i as int),
        decreases n - i,
    {
        out.push(v[i]);
        proof {
            assert(v@.take(i + 1) =~= v@.take(i as int).push(v@[i as int]));
        }
        i = i + 1;
    }
    proof {
        assert(v@.take(n as int) =~= v@);
    }
    out
}

} // verus!
