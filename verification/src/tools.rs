//! Decisions of the maintenance tools (NVS reset, matrix test).
use vstd::prelude::*;

verus! {

/// The NVS reset mask: keymaps `0x01`, macros `0x02`, stats `0x04`, features `0x08`,
/// bluetooth `0x10`, tama `0x20`.
pub open spec fn spec_nvs_mask(
    keymaps: bool,
    macros: bool,
    stats: bool,
    features: bool,
    bluetooth: bool,
    tama: bool,
) -> int {
    (if keymaps { 1int } else { 0 }) + (if macros { 2int } else { 0 }) + (if stats {
        4int
    } else {
        0
    }) + (if features { 8int } else { 0 }) + (if bluetooth { 16int } else { 0 }) + (if tama {
        32int
    } else {
        0
    })
}

/// Build the NVS reset mask from the partitions ticked in the tools panel.
pub fn build_nvs_mask(
    keymaps: bool,
    macros: bool,
    stats: bool,
    features: bool,
    bluetooth: bool,
    tama: bool,
) -> (mask: u8)
    ensures
        mask == spec_nvs_mask(keymaps, macros, stats, features, bluetooth, tama),
        mask == 0 <==> !(keymaps || macros || stats || features || bluetooth || tama),
{
    let mut mask: u8 = 0;
    if keymaps {
        mask = mask + 0x01;
    }
    if macros {
        mask = mask + 0x02;
    }
    if stats {
        mask = mask + 0x04;
    }
    if features {
        mask = mask + 0x08;
    }
    if bluetooth {
        mask = mask + 0x10;
    }
    if tama {
        mask = mask + 0x20;
    }
    mask
}

/// A matrix-test event carried by a reply payload: row, column, state
/// (1 pressed, 0 released).
pub fn matrix_event(payload: &[u8]) -> (ev: Option<(u8, u8, u8)>)
    ensures
        payload@.len() >= 3 ==> ev == Some((payload@[0], payload@[1], payload@[2])),
        payload@.len() < 3 ==> ev is None,
{
    if payload.len() >= 3 {
        Some((payload[0], payload[1], payload[2]))
    } else {
        None
    }
}

} // verus!
