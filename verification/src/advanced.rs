//! Decisions behind the advanced-feature panel (key overrides, leaders, tama, ...).
use vstd::prelude::*;
use crate::context::{mod_idx_to_byte, spec_mod_idx_to_byte};
use crate::text::str_eq;

verus! {

/// Key-override modifier byte: Ctrl bit 0, Shift bit 1, Alt bit 2.
pub fn ko_mod_byte(ctrl: bool, shift: bool, alt: bool) -> (m: u8)
    ensures
        m == (if ctrl { 1int } else { 0 }) + (if shift { 2int } else { 0 }) + (if alt {
            4int
        } else {
            0
        }),
{
    let mut m: u8 = 0;
    if ctrl {
        m = m + 1;
    }
    if shift {
        m = m + 2;
    }
    if alt {
        m = m + 4;
    }
    m
}

/// The leader sequence built from the first `count` (at most 4) picked codes, each
/// cut to its low byte.
pub fn leader_sequence(count: usize, codes: [i32; 4]) -> (seq: Vec<u8>)
    ensures
        seq@.len() == (if count < 4 { count as int } else { 4 }),
        forall|j: int| 0 <= j < seq@.len() ==> seq@[j] == codes[j] as u8,
{
    let mut seq: Vec<u8> = Vec::new();
    let mut j: usize = 0;
    while j < 4 && j < count
        invariant
            j <= 4,
            j <= count,
            seq@.len() == j,
            forall|k: int| 0 <= k < j ==> seq@[k] == codes[k] as u8,
        decreases 4 - j,
    {
        seq.push(#[verifier::truncate] (codes[j] as u8));
        j = j + 1;
    }
    seq
}

/// Result key (the low byte of the picked code) and modifier byte of a new leader entry.
pub fn leader_result(result_code: i32, mod_idx: i32) -> (r: (u8, u8))
    ensures
        r == (result_code as u8, spec_mod_idx_to_byte(mod_idx)),
{
    (#[verifier::truncate] (result_code as u8), mod_idx_to_byte(mod_idx))
}

/// The tama actions offered in the panel.
#[derive(Clone, Copy, Debug, PartialEq, Eq, Structural)]
pub enum TamaAction {
    Feed,
    Play,
    Sleep,
    Medicine,
    Toggle,
}

/// The tama action a button name stands for.
pub open spec fn spec_tama_action(name: Seq<char>) -> Option<TamaAction> {
    if name == "feed"@ {
        Some(TamaAction::Feed)
    } else if name == "play"@ {
        Some(TamaAction::Play)
    } else if name == "sleep"@ {
        Some(TamaAction::Sleep)
    } else if name == "meds"@ {
        Some(TamaAction::Medicine)
    } else if name == "toggle"@ {
        Some(TamaAction::Toggle)
    } else {
        None
    }
}

/// Read a tama button name.
pub fn tama_action(name: &str) -> (a: Option<TamaAction>)
    ensures
        a == spec_tama_action(name@),
{
    if str_eq(name, "feed") {
        Some(TamaAction::Feed)
    } else if str_eq(name, "play") {
        Some(TamaAction::Play)
    } else if str_eq(name, "sleep") {
        Some(TamaAction::Sleep)
    } else if str_eq(name, "meds") {
        Some(TamaAction::Medicine)
    } else if str_eq(name, "toggle") {
        Some(TamaAction::Toggle)
    } else {
        None
    }
}

/// Whether autoshift is on after a toggle reply (first byte non-zero; an empty
/// reply means off).
pub fn autoshift_enabled(payload: &[u8]) -> (on: bool)
    ensures
        on == (payload@.len() > 0 && payload@[0] != 0),
{
    payload.len() > 0 && payload[0] != 0
}

/// Words per minute from a WPM reply: a little-endian `u16`, or 0 for a short reply.
pub fn wpm_from_payload(payload: &[u8]) -> (wpm: u16)
    ensures
        wpm == (if payload@.len() >= 2 {
            crate::bytes::from_le2(payload@[0], payload@[1])
        } else {
            0
        }),
{
    if payload.len() >= 2 {
        crate::bytes::u16_from_le(payload[0], payload[1])
    } else {
        0
    }
}

/// The TRILAYER_SET payload: the three layers, each cut to a byte.
pub fn trilayer_payload(l1: i32, l2: i32, l3: i32) -> (p: Vec<u8>)
    ensures
        p@ == seq![l1 as u8, l2 as u8, l3 as u8],
{
    let p = vec![
        #[verifier::truncate] (l1 as u8),
        #[verifier::truncate] (l2 as u8),
        #[verifier::truncate] (l3 as u8),
    ];
    proof {
        assert(p@ =~= seq![l1 as u8, l2 as u8, l3 as u8]);
    }
    p
}

/// Whether both keys of a new combo have been picked (their labels are no longer
/// the `"Pick..."` placeholder).
pub fn combo_keys_picked(key1_label: &str, key2_label: &str) -> (ok: bool)
    ensures
        ok == (key1_label@ != "Pick..."@ && key2_label@ != "Pick..."@),
{
    !str_eq(key1_label, "Pick...") && !str_eq(key2_label, "Pick...")
}

} // verus!
