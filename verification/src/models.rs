//! Lookups and flags behind the keyboard view.
use vstd::prelude::*;

verus! {

/// The press count of key (`row`, `col`), or 0 outside the statistics.
pub open spec fn spec_heat_count(data: Seq<Seq<u32>>, row: int, col: int) -> u32 {
    if 0 <= row < data.len() && 0 <= col < data[row].len() {
        data[row][col]
    } else {
        0
    }
}

/// The press count of a key.
pub fn heat_count(data: &Vec<Vec<u32>>, row: usize, col: usize) -> (c: u32)
    ensures
        c == spec_heat_count(data@.map_values(|r: Vec<u32>| r@), row as int, col as int),
{
    if row < data.len() && col < data[row].len() {
        data[row][col]
    } else {
        0
    }
}

/// The keycode shown on a keycap, when the keymap has the key's position.
pub fn keycap_code(keymap: &Vec<Vec<u16>>, row: usize, col: usize) -> (code: Option<u16>)
    ensures
        code == (if row < keymap@.len() && col < keymap@[row as int]@.len() {
            Some(keymap@[row as int]@[col as int])
        } else {
            None
        }),
{
    if row < keymap.len() && col < keymap[row].len() {
        Some(keymap[row][col])
    } else {
        None
    }
}

/// The active flag of each layer entry: the one whose index is `active`.
pub fn layer_active_flags(indices: &Vec<i32>, active: i32) -> (flags: Vec<bool>)
    ensures
        flags@.len() == indices@.len(),
        forall|i: int| 0 <= i < indices@.len() ==> flags@[i] == (indices@[i] == active),
{
    let mut flags: Vec<bool> = Vec::new();
    let n = indices.len();
    let mut i: usize = 0;
    while i < n
        invariant
            n == indices@.len(),
            i <= n,
            flags@.len() == i,
            forall|k: int| 0 <= k < i ==> flags@[k] == (indices@[k] == active),
        decreases n - i,
    {
        flags.push(indices[i] == active);
        i = i + 1;
    }
    flags
}

/// The selection flag of each keycap after keycap `selected` is clicked.
pub fn selection_flags(count: usize, selected: usize) -> (flags: Vec<bool>)
    ensures
        flags@.len() == count,
        forall|i: int| 0 <= i < count ==> flags@[i] == (i == selected),
{
    let mut flags: Vec<bool> = Vec::new();
    let mut i: usize = 0;
    while i < count
        invariant
            i <= count,
            flags@.len() == i,
            forall|k: int| 0 <= k < i ==> flags@[k] == (k == selected),
        decreases count - i,
    {
        flags.push(i == selected);
        i = i + 1;
    }
    flags
}

} // verus!
