//! Decoding the Tamagotchi statistics reply of the firmware.
use vstd::prelude::*;
use crate::bytes::{from_le2, from_le4, u16_from_le, u32_from_le};

verus! {

/// Structured tama stats for display.
pub struct TamaStats {
    pub enabled: bool,
    pub level: u16,
    pub hunger: u16,
    pub happiness: u16,
    pub energy: u16,
    pub health: u16,
    pub xp: u16,
    pub total_keys: u32,
    pub max_kpm: u32,
}

/// Decode the 22-byte TAMA_QUERY payload: enabled flag at 0, then little-endian
/// hunger (2), happiness (4), energy (6), health (8), level (10), xp (12),
/// total keys (14, 32-bit) and max keys per minute (18, 32-bit).
pub fn parse_tama_stats(payload: &[u8]) -> (t: TamaStats)
    requires
        payload@.len() >= 22,
    ensures
        t.enabled == (payload@[0] != 0),
        t.hunger == from_le2(payload@[2], payload@[3]),
        t.happiness == from_le2(payload@[4], payload@[5]),
        t.energy == from_le2(payload@[6], payload@[7]),
        t.health == from_le2(payload@[8], payload@[9]),
        t.level == from_le2(payload@[10], payload@[11]),
        t.xp == from_le2(payload@[12], payload@[13]),
        t.total_keys == from_le4(payload@[14], payload@[15], payload@[16], payload@[17]),
        t.max_kpm == from_le4(payload@[18], payload@[19], payload@[20], payload@[21]),
{
    TamaStats {
        enabled: payload[0] != 0,
        level: u16_from_le(payload[10], payload[11]),
        hunger: u16_from_le(payload[2], payload[3]),
        happiness: u16_from_le(payload[4], payload[5]),
        energy: u16_from_le(payload[6], payload[7]),
        health: u16_from_le(payload[8], payload[9]),
        xp: u16_from_le(payload[12], payload[13]),
        total_keys: u32_from_le(payload[14], payload[15], payload[16], payload[17]),
        max_kpm: u32_from_le(payload[18], payload[19], payload[20], payload[21]),
    }
}

} // verus!
