//! Building macros in the editor.
use vstd::prelude::*;
use crate::entries::DELAY_KEYCODE;
use crate::text::{decimal, push_char, push_decimal, str_eq};
use crate::config::upper_hex_char;

verus! {

/// The delay step for a delay of `ms` milliseconds: the low byte of `ms`, in tens of ms.
pub open spec fn spec_delay_units(ms: i32) -> u8 {
    ((ms as u8) / 10) as u8
}

/// Units (tens of ms) stored by a delay step of `ms` milliseconds.
pub fn delay_units(ms: i32) -> (u: u8)
    ensures
        u == spec_delay_units(ms),
{
    (#[verifier::truncate] (ms as u8)) / 10
}

/// A delay of up to 255 ms is stored in whole tens of milliseconds, rounded down.
pub proof fn lemma_delay_units_round_down(ms: i32)
    requires
        0 <= ms <= 255,
    ensures
        spec_delay_units(ms) * 10 <= ms < spec_delay_units(ms) * 10 + 10,
{
    assert((ms as u8) as int == ms) by (bit_vector)
        requires
            0 <= ms <= 255,
    ;
}

/// The step `(0xFF, units)` that stands for a delay.
pub fn delay_step(ms: i32) -> (step: (u8, u8))
    ensures
        step == (DELAY_KEYCODE, spec_delay_units(ms)),
{
    (DELAY_KEYCODE, delay_units(ms))
}

/// Steps pressing Left Ctrl then `key`.
pub open spec fn ctrl_steps(key: u8) -> Seq<(u8, u8)> {
    seq![(0xE0u8, 0u8), (key, 0u8)]
}

/// The steps of a shortcut preset, if the name is one.
pub open spec fn spec_shortcut_steps(name: Seq<char>) -> Option<Seq<(u8, u8)>> {
    if name == "ctrl+c"@ {
        Some(ctrl_steps(0x06))
    } else if name == "ctrl+v"@ {
        Some(ctrl_steps(0x19))
    } else if name == "ctrl+x"@ {
        Some(ctrl_steps(0x1B))
    } else if name == "ctrl+z"@ {
        Some(ctrl_steps(0x1D))
    } else if name == "ctrl+y"@ {
        Some(ctrl_steps(0x1C))
    } else if name == "ctrl+s"@ {
        Some(ctrl_steps(0x16))
    } else if name == "ctrl+a"@ {
        Some(ctrl_steps(0x04))
    } else if name == "alt+f4"@ {
        Some(seq![(0xE2u8, 0u8), (0x3Du8, 0u8)])
    } else {
        None
    }
}

/// Each `ctrl+<letter>` preset presses Left Ctrl (`0xE0`) and then that letter, whose
/// HID usage is `0x04 + (letter - 'a')`; `alt+f4` presses Left Alt (`0xE2`) and then
/// F4 (`0x3A + 3`).
pub proof fn lemma_shortcut_presets(l: char)
    requires
        l == 'a' || l == 'c' || l == 's' || l == 'v' || l == 'x' || l == 'y' || l == 'z',
    ensures
        spec_shortcut_steps("ctrl+"@.push(l)) == Some(
            seq![(0xE0u8, 0u8), ((0x04 + (l as int - 'a' as int)) as u8, 0u8)],
        ),
        spec_shortcut_steps("alt+f4"@) == Some(seq![(0xE2u8, 0u8), ((0x3A + 3) as u8, 0u8)]),
{
    reveal_strlit("ctrl+");
    reveal_strlit("ctrl+c");
    reveal_strlit("ctrl+v");
    reveal_strlit("ctrl+x");
    reveal_strlit("ctrl+z");
    reveal_strlit("ctrl+y");
    reveal_strlit("ctrl+s");
    reveal_strlit("ctrl+a");
    reveal_strlit("alt+f4");
    let name = "ctrl+"@.push(l);
    assert(name.len() == 6);
    assert("ctrl+c"@[5] == 'c');
    if l == 'c' {
        assert(name =~= "ctrl+c"@);
    } else if l == 'v' {
        assert(name =~= "ctrl+v"@);
    } else if l == 'x' {
        assert(name =~= "ctrl+x"@);
    } else if l == 'z' {
        assert(name =~= "ctrl+z"@);
    } else if l == 'y' {
        assert(name =~= "ctrl+y"@);
    } else if l == 's' {
        assert(name =~= "ctrl+s"@);
    } else {
        assert(name =~= "ctrl+a"@);
    }
    assert(name != "ctrl+c"@ ==> name[5] != "ctrl+c"@[5]);
    assert(name != "ctrl+v"@ ==> name[5] != "ctrl+v"@[5]);
    assert(name != "ctrl+x"@ ==> name[5] != "ctrl+x"@[5]);
    assert(name != "ctrl+z"@ ==> name[5] != "ctrl+z"@[5]);
    assert(name != "ctrl+y"@ ==> name[5] != "ctrl+y"@[5]);
    assert(name != "ctrl+s"@ ==> name[5] != "ctrl+s"@[5]);
    let af = "alt+f4"@;
    assert(af[0] != "ctrl+c"@[0]);
    assert(af[0] != "ctrl+v"@[0]);
    assert(af[0] != "ctrl+x"@[0]);
    assert(af[0] != "ctrl+z"@[0]);
    assert(af[0] != "ctrl+y"@[0]);
    assert(af[0] != "ctrl+s"@[0]);
    assert(af[0] != "ctrl+a"@[0]);
}

fn ctrl(key: u8) -> (v: Vec<(u8, u8)>)
    ensures
        v@ == ctrl_steps(key),
{
    let v = vec![(0xE0u8, 0u8), (key, 0u8)];
    proof {
        assert(v@ =~= ctrl_steps(key));
    }
    v
}

/// The steps of a shortcut preset.
pub fn shortcut_steps(name: &str) -> (r: Option<Vec<(u8, u8)>>)
    ensures
        match spec_shortcut_steps(name@) {
            None => r is None,
            Some(s) => r matches Some(v) && v@ == s,
        },
{
    if str_eq(name, "ctrl+c") {
        Some(ctrl(0x06))
    } else if str_eq(name, "ctrl+v") {
        Some(ctrl(0x19))
    } else if str_eq(name, "ctrl+x") {
        Some(ctrl(0x1B))
    } else if str_eq(name, "ctrl+z") {
        Some(ctrl(0x1D))
    } else if str_eq(name, "ctrl+y") {
        Some(ctrl(0x1C))
    } else if str_eq(name, "ctrl+s") {
        Some(ctrl(0x16))
    } else if str_eq(name, "ctrl+a") {
        Some(ctrl(0x04))
    } else if str_eq(name, "alt+f4") {
        let v = vec![(0xE2u8, 0u8), (0x3Du8, 0u8)];
        proof {
            assert(v@ =~= seq![(0xE2u8, 0u8), (0x3Du8, 0u8)]);
        }
        Some(v)
    } else {
        None
    }
}

/// The largest of the slots, or -1 when there is none.
pub open spec fn max_slot(slots: Seq<u8>, n: int) -> int
    decreases n,
{
    if n <= 0 {
        -1
    } else {
        let m = max_slot(slots, n - 1);
        if slots[n - 1] > m {
            slots[n - 1] as int
        } else {
            m
        }
    }
}

/// The slot offered for the next macro after the list `slots` arrived: one past the
/// highest slot in use, unless the slot already offered is higher.
pub fn next_macro_slot(slots: &Vec<u8>, offered: i32) -> (next: i32)
    ensures
        next == (if max_slot(slots@, slots@.len() as int) + 1 > offered {
            max_slot(slots@, slots@.len() as int) + 1
        } else {
            offered as int
        }),
{
    let mut m: i32 = -1;
    let n = slots.len();
    let mut i: usize = 0;
    while i < n
        invariant
            n == slots@.len(),
            i <= n,
            m == max_slot(slots@, i as int),
            -1 <= m <= 255,
        decreases n - i,
    {
        let s = slots[i] as i32;
        if s > m {
            m = s;
        }
        i = i + 1;
    }
    let next_slot = m + 1;
    if next_slot > offered {
        next_slot
    } else {
        offered
    }
}

/// How one step reads in the macro editor: `T(ms)` for a delay, `D(KK)` for a key
/// (two uppercase hex digits).
pub open spec fn step_display(kc: u8, md: u8) -> Seq<char> {
    if kc == DELAY_KEYCODE {
        seq!['T', '('] + decimal((md * 10) as nat) + seq![')']
    } else {
        seq!['D', '(', upper_hex_char(kc as int / 16), upper_hex_char(kc as int % 16), ')']
    }
}

/// The steps of the macro being built, separated by spaces.
pub open spec fn spec_steps_display(steps: Seq<(u8, u8)>) -> Seq<char>
    decreases steps.len(),
{
    if steps.len() == 0 {
        Seq::empty()
    } else if steps.len() == 1 {
        step_display(steps[0].0, steps[0].1)
    } else {
        spec_steps_display(steps.drop_last()) + seq![' '] + step_display(
            steps.last().0,
            steps.last().1,
        )
    }
}

fn upper_hex(v: u8) -> (ch: char)
    requires
        v < 16,
    ensures
        ch == upper_hex_char(v as int),
{
    if v < 10 {
        ((0x30u8 + v) as char)
    } else {
        ((0x41u8 + v - 10) as char)
    }
}

/// The text shown for the macro being built.
pub fn macro_steps_display(steps: &Vec<(u8, u8)>) -> (text: String)
    ensures
        text@ == spec_steps_display(steps@),
{
    let mut text = String::new();
    let n = steps.len();
    let mut i: usize = 0;
    while i < n
        invariant
            n == steps@.len(),
            i <= n,
            text@ == spec_steps_display(steps@.take(i as int)),
        decreases n - i,
    {
        let (kc, md) = steps[i];
        let ghost before = text@;
        if i > 0 {
            push_char(&mut text, ' ');
        }
        let ghost mid = text@;
        if kc == DELAY_KEYCODE {
            push_char(&mut text, 'T');
            push_char(&mut text, '(');
            push_decimal(&mut text, md as usize * 10);
            push_char(&mut text, ')');
        } else {
            push_char(&mut text, 'D');
            push_char(&mut text, '(');
            push_char(&mut text, upper_hex(kc / 16));
            push_char(&mut text, upper_hex(kc % 16));
            push_char(&mut text, ')');
        }
        proof {
            assert(text@ =~= mid + step_display(kc, md));
            let t = steps@.take(i + 1);
            assert(t.drop_last() =~= steps@.take(i as int));
            assert(t.last() == (kc, md));
            if i > 0 {
                assert(text@ =~= before + seq![' '] + step_display(kc, md));
            } else {
                assert(text@ =~= step_display(kc, md));
            }
        }
        i = i + 1;
    }
    proof {
        assert(steps@.take(n as int) =~= steps@);
    }
    text
}

/// The steps of the macro being put together in the editor, as `(keycode, modifier)`
/// pairs; a delay is `(0xFF, units)`.
pub struct MacroDraft {
    pub steps: Vec<(u8, u8)>,
}

impl MacroDraft {
    /// A draft with no step.
    pub fn new() -> (d: MacroDraft)
        ensures
            d.steps@ == Seq::<(u8, u8)>::empty(),
    {
        MacroDraft { steps: Vec::new() }
    }

    /// Append a delay of `ms` milliseconds.
    pub fn add_delay(&mut self, ms: i32)
        ensures
            final(self).steps@ == old(self).steps@.push((DELAY_KEYCODE, spec_delay_units(ms))),
    {
        self.steps.push(delay_step(ms));
    }

    /// Append the steps of a shortcut preset; an unknown name changes nothing.
    pub fn add_shortcut(&mut self, name: &str) -> (added: bool)
        ensures
            match spec_shortcut_steps(name@) {
                Some(s) => added && final(self).steps@ == old(self).steps@ + s,
                None => !added && final(self).steps@ == old(self).steps@,
            },
    {
        match shortcut_steps(name) {
            None => false,
            Some(v) => {
                let ghost before = self.steps@;
                let n = v.len();
                let mut i: usize = 0;
                while i < n
                    invariant
                        n == v@.len(),
                        i <= n,
                        self.steps@ == before + v@.take(i as int),
                    decreases n - i,
                {
                    self.steps.push(v[i]);
                    proof {
                        assert(v@.take(i + 1) =~= v@.take(i as int).push(v@[i as int]));
                    }
                    i = i + 1;
                }
                proof {
                    assert(v@.take(n as int) =~= v@);
                }
                true
            },
        }
    }

    /// Drop the last step, if there is one.
    pub fn remove_last(&mut self)
        ensures
            final(self).steps@ == (if old(self).steps@.len() > 0 {
                old(self).steps@.drop_last()
            } else {
                old(self).steps@
            }),
    {
        let _ = self.steps.pop();
    }

    /// Drop every step.
    pub fn clear(&mut self)
        ensures
            final(self).steps@ == Seq::<(u8, u8)>::empty(),
    {
        self.steps.clear();
    }
}

} // verus!
