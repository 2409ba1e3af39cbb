//! Small mappings shared by the editor callbacks.
use vstd::prelude::*;

verus! {

/// The HID modifier byte chosen by a modifier combo-box index
/// (`[None, Ctrl, Shift, Alt, GUI, RCtrl, RShift, RAlt, RGUI]`): index `k` in `1..=8`
/// selects bit `k - 1`, every other index selects no modifier.
pub open spec fn spec_mod_idx_to_byte(idx: i32) -> u8 {
    match idx {
        1 => 0x01u8,
        2 => 0x02u8,
        3 => 0x04u8,
        4 => 0x08u8,
        5 => 0x10u8,
        6 => 0x20u8,
        7 => 0x40u8,
        8 => 0x80u8,
        _ => 0x00u8,
    }
}

/// Map a modifier combo-box index to its HID modifier byte.
pub fn mod_idx_to_byte(idx: i32) -> (b: u8)
    ensures
        b == spec_mod_idx_to_byte(idx),
{
    match idx {
        1 => 0x01,
        2 => 0x02,
        3 => 0x04,
        4 => 0x08,
        5 => 0x10,
        6 => 0x20,
        7 => 0x40,
        8 => 0x80,
        _ => 0x00,
    }
}

/// Combo-box index `k` in `1..=8` selects the single HID modifier bit `1 << (k - 1)`
/// (Left Ctrl, Shift, Alt, GUI, then the right-hand ones); every other index selects
/// no modifier.
pub proof fn lemma_mod_idx_one_bit(k: i32)
    ensures
        1 <= k <= 8 ==> spec_mod_idx_to_byte(k) == 1u8 << ((k - 1) as u8),
        !(1 <= k <= 8) ==> spec_mod_idx_to_byte(k) == 0,
{
    if 1 <= k <= 8 {
        let b = spec_mod_idx_to_byte(k);
        let s = (k - 1) as u8;
        assert(b == 1u8 << s) by (bit_vector)
            requires
                (s == 0 && b == 1) || (s == 1 && b == 2) || (s == 2 && b == 4) || (s == 3 && b
                    == 8) || (s == 4 && b == 0x10) || (s == 5 && b == 0x20) || (s == 6 && b
                    == 0x40) || (s == 7 && b == 0x80),
        ;
    }
}

} // verus!
