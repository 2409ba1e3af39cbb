//! Keycodes built in the key selector (Mod-Tap, Layer-Tap) and where a picked key goes.
use vstd::prelude::*;
use crate::text::{decimal, push_char, push_decimal, spec_trim, str_eq, trim_text};

verus! {

/// Modifier byte of a Mod-Tap modifier index (`0..=7` one bit each; otherwise Left Shift).
pub open spec fn mt_mod_nibble(mod_idx: i32) -> u16 {
    match mod_idx {
        0 => 0x01u16,
        1 => 0x02u16,
        2 => 0x04u16,
        3 => 0x08u16,
        4 => 0x10u16,
        5 => 0x20u16,
        6 => 0x40u16,
        7 => 0x80u16,
        _ => 0x02u16,
    }
}

/// HID usage of a Mod-Tap key index: letters A..Z, digits 1..0, then Space, Enter,
/// Escape, Tab, Backspace; otherwise A.
pub open spec fn mt_hid(key_idx: i32) -> u16 {
    if 0 <= key_idx <= 25 {
        (0x04 + key_idx) as u16
    } else if 26 <= key_idx <= 35 {
        (0x1E + key_idx - 26) as u16
    } else if key_idx == 36 {
        0x2Cu16
    } else if key_idx == 37 {
        0x28u16
    } else if key_idx == 38 {
        0x29u16
    } else if key_idx == 39 {
        0x2Bu16
    } else if key_idx == 40 {
        0x2Au16
    } else {
        0x04u16
    }
}

/// The Mod-Tap keycode `0x5000 | mod << 8 | hid`.
pub open spec fn spec_mt_keycode(mod_idx: i32, key_idx: i32) -> u16 {
    0x5000u16 | (mt_mod_nibble(mod_idx) << 8u16) | mt_hid(key_idx)
}

/// The high byte of a Mod-Tap keycode, `0x50 | mod`, for each modifier index
/// (Right Ctrl and Right Alt fall on bits that `0x50` already has).
pub open spec fn mt_high_byte(mod_idx: i32) -> u16 {
    match mod_idx {
        0 => 0x51u16,
        1 => 0x52u16,
        2 => 0x54u16,
        3 => 0x58u16,
        4 => 0x50u16,
        5 => 0x70u16,
        6 => 0x50u16,
        7 => 0xD0u16,
        _ => 0x52u16,
    }
}

/// Build a Mod-Tap keycode from the selector's modifier and key indices.
pub fn mt_keycode(mod_idx: i32, key_idx: i32) -> (code: u16)
    ensures
        code == spec_mt_keycode(mod_idx, key_idx),
        code == mt_high_byte(mod_idx) * 256 + mt_hid(key_idx),
{
    let mod_nibble: u16 = match mod_idx {
        0 => 0x01,
        1 => 0x02,
        2 => 0x04,
        3 => 0x08,
        4 => 0x10,
        5 => 0x20,
        6 => 0x40,
        7 => 0x80,
        _ => 0x02,
    };
    let hid: u16 = if 0 <= key_idx && key_idx <= 25 {
        0x04 + key_idx as u16
    } else if 26 <= key_idx && key_idx <= 35 {
        0x1E + (key_idx - 26) as u16
    } else if key_idx == 36 {
        0x2C
    } else if key_idx == 37 {
        0x28
    } else if key_idx == 38 {
        0x29
    } else if key_idx == 39 {
        0x2B
    } else if key_idx == 40 {
        0x2A
    } else {
        0x04
    };
    let code = 0x5000 | (mod_nibble << 8) | hid;
    let ghost high: u16 = if mod_nibble == 0x01 {
        0x51
    } else if mod_nibble == 0x02 {
        0x52
    } else if mod_nibble == 0x04 {
        0x54
    } else if mod_nibble == 0x08 {
        0x58
    } else if mod_nibble == 0x10 {
        0x50
    } else if mod_nibble == 0x20 {
        0x70
    } else if mod_nibble == 0x40 {
        0x50
    } else {
        0xD0
    };
    assert(code == high * 256 + hid) by (bit_vector)
        requires
            hid < 256,
            code == 0x5000u16 | (mod_nibble << 8u16) | hid,
            mod_nibble == 1 || mod_nibble == 2 || mod_nibble == 4 || mod_nibble == 8
                || mod_nibble == 0x10 || mod_nibble == 0x20 || mod_nibble == 0x40
                || mod_nibble == 0x80,
            high == (if mod_nibble == 0x01 {
                0x51u16
            } else if mod_nibble == 0x02 {
                0x52u16
            } else if mod_nibble == 0x04 {
                0x54u16
            } else if mod_nibble == 0x08 {
                0x58u16
            } else if mod_nibble == 0x10 {
                0x50u16
            } else if mod_nibble == 0x20 {
                0x70u16
            } else if mod_nibble == 0x40 {
                0x50u16
            } else {
                0xD0u16
            }),
    ;
    code
}

/// A Mod-Tap keycode carries the single HID modifier bit `1 << m` of its modifier
/// index `m` (Ctrl, Shift, Alt, GUI, then their right-hand versions) in its high byte,
/// over `0x50`; its low byte is the tapped key: letters A..Z at `0x04..`, digits 1..0
/// at `0x1E..`, then Space, Enter, Escape, Tab, Backspace.
pub proof fn lemma_mt_keycode_fields(m: i32, k: i32)
    requires
        0 <= m <= 7,
    ensures
        spec_mt_keycode(m, k) >> 8u16 == (0x50u16 | (1u16 << (m as u16))),
        0 <= k <= 25 ==> spec_mt_keycode(m, k) & 0xFFu16 == 0x04 + k,
        26 <= k <= 35 ==> spec_mt_keycode(m, k) & 0xFFu16 == 0x1E + (k - 26),
        k == 36 ==> spec_mt_keycode(m, k) & 0xFFu16 == 0x2C,
        k == 37 ==> spec_mt_keycode(m, k) & 0xFFu16 == 0x28,
        k == 38 ==> spec_mt_keycode(m, k) & 0xFFu16 == 0x29,
        k == 39 ==> spec_mt_keycode(m, k) & 0xFFu16 == 0x2B,
        k == 40 ==> spec_mt_keycode(m, k) & 0xFFu16 == 0x2A,
{
    let n = mt_mod_nibble(m);
    let h = mt_hid(k);
    let code = spec_mt_keycode(m, k);
    let mu = m as u16;
    assert(n == 1u16 << mu) by (bit_vector)
        requires
            (mu == 0 && n == 1) || (mu == 1 && n == 2) || (mu == 2 && n == 4) || (mu == 3 && n
                == 8) || (mu == 4 && n == 0x10) || (mu == 5 && n == 0x20) || (mu == 6 && n
                == 0x40) || (mu == 7 && n == 0x80),
    ;
    assert(h < 256);
    assert(code >> 8u16 == (0x50u16 | n) && code & 0xFFu16 == h) by (bit_vector)
        requires
            h < 256,
            n < 256,
            code == 0x5000u16 | (n << 8u16) | h,
    ;
}

/// HID usage of a Layer-Tap key index: Space, Enter, Escape, Backspace, Tab, then A..E;
/// otherwise Space.
pub open spec fn lt_hid(key_idx: i32) -> u16 {
    if key_idx == 0 {
        0x2Cu16
    } else if key_idx == 1 {
        0x28u16
    } else if key_idx == 2 {
        0x29u16
    } else if key_idx == 3 {
        0x2Au16
    } else if key_idx == 4 {
        0x2Bu16
    } else if 5 <= key_idx <= 9 {
        (0x04 + key_idx - 5) as u16
    } else {
        0x2Cu16
    }
}

/// The layer of a Layer-Tap keycode: the low four bits of the layer index.
pub open spec fn lt_layer(layer_idx: i32) -> u16 {
    ((layer_idx as u16) % 16) as u16
}

/// A Layer-Tap keycode for a layer below 16 carries that layer; its tapped key is
/// Space, Enter, Escape, Backspace, Tab, or the letters A..E.
pub proof fn lemma_lt_fields(l: i32, k: i32)
    ensures
        0 <= l < 16 ==> lt_layer(l) == l,
        k == 0 ==> lt_hid(k) == 0x2C,
        k == 1 ==> lt_hid(k) == 0x28,
        k == 2 ==> lt_hid(k) == 0x29,
        k == 3 ==> lt_hid(k) == 0x2A,
        k == 4 ==> lt_hid(k) == 0x2B,
        5 <= k <= 9 ==> lt_hid(k) == 0x04 + (k - 5),
{
}

/// Build a Layer-Tap keycode `0x4000 | layer << 8 | hid`.
pub fn lt_keycode(layer_idx: i32, key_idx: i32) -> (code: u16)
    ensures
        code == 0x4000 + lt_layer(layer_idx) * 256 + lt_hid(key_idx),
        code / 4096 == 4,
        (code / 256) % 16 == lt_layer(layer_idx),
        code % 256 == lt_hid(key_idx),
{
    let raw: u16 = #[verifier::truncate] (layer_idx as u16);
    let layer: u16 = raw & 0x0F;
    assert(layer < 16 && layer == raw % 16) by (bit_vector)
        requires
            layer == raw & 0x0Fu16,
    ;
    let hid: u16 = if key_idx == 0 {
        0x2C
    } else if key_idx == 1 {
        0x28
    } else if key_idx == 2 {
        0x29
    } else if key_idx == 3 {
        0x2A
    } else if key_idx == 4 {
        0x2B
    } else if 5 <= key_idx && key_idx <= 9 {
        0x04 + (key_idx - 5) as u16
    } else {
        0x2C
    };
    let code = 0x4000 | (layer << 8) | hid;
    assert(code == 0x4000 + layer * 256 + hid) by (bit_vector)
        requires
            layer < 16,
            hid < 256,
            code == 0x4000u16 | (layer << 8u16) | hid,
    ;
    code
}

/// Where the key selector sends a picked key.
#[derive(Clone, Copy, Debug, PartialEq, Eq, Structural)]
pub enum SelectorTarget {
    Keymap,
    ComboResult,
    KoTrigger,
    KoResult,
    LeaderResult,
    ComboKey1,
    ComboKey2,
    LeaderSeq,
    TdAction,
    MacroStep,
}

/// The target named by the selector; unknown names go to the keymap.
pub open spec fn spec_selector_target(name: Seq<char>) -> SelectorTarget {
    if name == "combo-result"@ {
        SelectorTarget::ComboResult
    } else if name == "ko-trigger"@ {
        SelectorTarget::KoTrigger
    } else if name == "ko-result"@ {
        SelectorTarget::KoResult
    } else if name == "leader-result"@ {
        SelectorTarget::LeaderResult
    } else if name == "combo-key1"@ {
        SelectorTarget::ComboKey1
    } else if name == "combo-key2"@ {
        SelectorTarget::ComboKey2
    } else if name == "leader-seq"@ {
        SelectorTarget::LeaderSeq
    } else if name == "td-action"@ {
        SelectorTarget::TdAction
    } else if name == "macro-step"@ {
        SelectorTarget::MacroStep
    } else {
        SelectorTarget::Keymap
    }
}

/// Read the selector target name.
pub fn selector_target(name: &str) -> (t: SelectorTarget)
    ensures
        t == spec_selector_target(name@),
{
    if str_eq(name, "combo-result") {
        SelectorTarget::ComboResult
    } else if str_eq(name, "ko-trigger") {
        SelectorTarget::KoTrigger
    } else if str_eq(name, "ko-result") {
        SelectorTarget::KoResult
    } else if str_eq(name, "leader-result") {
        SelectorTarget::LeaderResult
    } else if str_eq(name, "combo-key1") {
        SelectorTarget::ComboKey1
    } else if str_eq(name, "combo-key2") {
        SelectorTarget::ComboKey2
    } else if str_eq(name, "leader-seq") {
        SelectorTarget::LeaderSeq
    } else if str_eq(name, "td-action") {
        SelectorTarget::TdAction
    } else if str_eq(name, "macro-step") {
        SelectorTarget::MacroStep
    } else {
        SelectorTarget::Keymap
    }
}

/// The four action codes of a tap dance after slot `slot` is set to `code`, read from
/// the displayed actions (`codes`, of which at most four are used; missing ones are 0).
pub fn td_slot_codes(codes: &Vec<i32>, slot: usize, code: u16) -> (out: [u16; 4])
    requires
        slot < 4,
    ensures
        forall|j: int|
            0 <= j < 4 ==> out[j] == (if j == slot {
                code
            } else if j < codes@.len() {
                codes@[j] as u16
            } else {
                0u16
            }),
{
    let mut out: [u16; 4] = [0, 0, 0, 0];
    let mut j: usize = 0;
    while j < 4 && j < codes.len()
        invariant
            j <= 4,
            forall|k: int|
                0 <= k < 4 ==> out[k] == (if k < j && k < codes@.len() {
                    codes@[k] as u16
                } else {
                    0u16
                }),
        decreases 4 - j,
    {
        out[j] = #[verifier::truncate] (codes[j] as u16);
        j = j + 1;
    }
    out[slot] = code;
    out
}

/// The next number of keys in the leader sequence being built (at most 4).
pub fn leader_seq_next_count(count: i32) -> (n: i32)
    ensures
        n == (if count < 4 { count + 1 } else { count as int }),
{
    if count < 4 {
        count + 1
    } else {
        count
    }
}

/// The label of a matrix position: `R<row>C<col>`.
pub open spec fn spec_position_label(row: nat, col: nat) -> Seq<char> {
    seq!['R'] + decimal(row) + seq!['C'] + decimal(col)
}

/// Label a matrix position (combo keys are shown this way).
pub fn position_label(row: usize, col: usize) -> (s: String)
    ensures
        s@ == spec_position_label(row as nat, col as nat),
{
    let mut s = String::new();
    push_char(&mut s, 'R');
    push_decimal(&mut s, row);
    push_char(&mut s, 'C');
    push_decimal(&mut s, col);
    proof {
        assert(s@ =~= spec_position_label(row as nat, col as nat));
    }
    s
}

/// The value of a hexadecimal digit (`0`-`9`, `a`-`f`, `A`-`F`), 0 for anything else.
pub open spec fn hex_digit_value(c: char) -> nat {
    if '0' <= c <= '9' {
        (c as int - '0' as int) as nat
    } else if 'a' <= c <= 'f' {
        (c as int - 'a' as int + 10) as nat
    } else if 'A' <= c <= 'F' {
        (c as int - 'A' as int + 10) as nat
    } else {
        0
    }
}

/// Whether `c` is a hexadecimal digit.
pub open spec fn is_hex_digit(c: char) -> bool {
    ('0' <= c <= '9') || ('a' <= c <= 'f') || ('A' <= c <= 'F')
}

/// The number written by hexadecimal digits, most significant first.
pub open spec fn hex_value(s: Seq<char>) -> nat
    decreases s.len(),
{
    if s.len() == 0 {
        0
    } else {
        hex_value(s.drop_last()) * 16 + hex_digit_value(s.last())
    }
}

/// The digits of a hexadecimal number: the text after one optional leading `+`.
pub open spec fn hex_digits_of(t: Seq<char>) -> Seq<char> {
    if t.len() > 0 && t[0] == '+' {
        t.drop_first()
    } else {
        t
    }
}

/// What `u16::from_str_radix(t, 16)` gives: an optional `+`, then at least one
/// hexadecimal digit and nothing else, for a value that fits in 16 bits.
pub open spec fn spec_parse_hex_u16(t: Seq<char>) -> Option<u16> {
    let d = hex_digits_of(t);
    if d.len() > 0 && (forall|k: int| 0 <= k < d.len() ==> is_hex_digit(#[trigger] d[k]))
        && hex_value(d) <= 0xFFFF {
        Some(hex_value(d) as u16)
    } else {
        None
    }
}

proof fn lemma_hex_value_prefix(s: Seq<char>, k: int)
    requires
        0 <= k <= s.len(),
    ensures
        hex_value(s.take(k)) <= hex_value(s),
    decreases s.len(),
{
    if k < s.len() {
        lemma_hex_value_prefix(s.drop_last(), k);
        assert(s.drop_last().take(k) =~= s.take(k));
    } else {
        assert(s.take(k) =~= s);
    }
}

/// How hexadecimal text is read: a single digit stands for its value (`0`-`9`, then
/// `a`-`f` and `A`-`F` for 10 to 15); a digit appended to a number multiplies it by 16
/// and adds the digit, as long as the result fits in 16 bits, and the text stops being
/// a number once it does not fit; any other character makes it no number; a leading
/// `+` changes nothing.
pub proof fn lemma_hex_reading(t: Seq<char>, c: char)
    requires
        t.len() > 0,
        t[0] != '+',
    ensures
        ({
            let is_digit = ('0' <= c <= '9') || ('a' <= c <= 'f') || ('A' <= c <= 'F');
            let dv: int = if '0' <= c <= '9' {
                c as int - '0' as int
            } else if 'a' <= c <= 'f' {
                c as int - 'a' as int + 10
            } else {
                c as int - 'A' as int + 10
            };
            &&& is_digit ==> spec_parse_hex_u16(seq![c]) == Some(dv as u16)
            &&& is_digit ==> (spec_parse_hex_u16(t) matches Some(v) ==> (v * 16 + dv <= 0xFFFF
                ==> spec_parse_hex_u16(t.push(c)) == Some((v * 16 + dv) as u16)))
            &&& is_digit ==> (spec_parse_hex_u16(t) matches Some(v) ==> (v * 16 + dv > 0xFFFF
                ==> spec_parse_hex_u16(t.push(c)) is None))
            &&& spec_parse_hex_u16(t) is None ==> spec_parse_hex_u16(t.push(c)) is None
            &&& !is_digit ==> spec_parse_hex_u16(t.push(c)) is None
            &&& spec_parse_hex_u16(seq!['+'] + t) == spec_parse_hex_u16(t)
        }),
{
    let tc = t.push(c);
    assert(hex_digits_of(tc) == tc);
    assert(hex_digits_of(t) == t);
    assert(tc.drop_last() =~= t);
    assert(hex_value(tc) == hex_value(t) * 16 + hex_digit_value(c));
    let one = seq![c];
    assert(one.drop_last() =~= Seq::<char>::empty());
    assert(one.last() == c);
    assert(hex_value(Seq::<char>::empty()) == 0);
    assert(hex_value(one) == hex_digit_value(c));
    if c != '+' {
        assert(hex_digits_of(one) == one);
    }
    let pt = seq!['+'] + t;
    assert(hex_digits_of(pt) =~= t);
    if forall|k: int| 0 <= k < t.len() ==> is_hex_digit(#[trigger] t[k]) {
        if is_hex_digit(c) {
            assert forall|k: int| 0 <= k < tc.len() implies is_hex_digit(#[trigger] tc[k]) by {
                if k < t.len() {
                    assert(tc[k] == t[k]);
                }
            }
        } else {
            assert(!is_hex_digit(tc[tc.len() - 1]));
        }
    } else {
        let k = choose|k: int| 0 <= k < t.len() && !is_hex_digit(#[trigger] t[k]);
        assert(tc[k] == t[k]);
    }
    if !is_hex_digit(c) {
        assert(!is_hex_digit(tc[tc.len() - 1]));
    }
}

/// Read a 16-bit number written in hexadecimal (an optional `+`, then digits).
pub fn parse_hex_u16(t: &str) -> (r: Option<u16>)
    ensures
        r == spec_parse_hex_u16(t@),
{
    let n = t.unicode_len();
    if n == 0 {
        return None;
    }
    let start: usize = if t.get_char(0) == '+' { 1 } else { 0 };
    if start == n {
        return None;
    }
    let ghost d = hex_digits_of(t@);
    proof {
        assert(d =~= t@.subrange(start as int, n as int));
    }
    let mut v: u32 = 0;
    let mut i: usize = start;
    while i < n
        invariant
            n == t@.len(),
            start < n,
            start <= i <= n,
            d == t@.subrange(start as int, n as int),
            d == hex_digits_of(t@),
            v == hex_value(t@.subrange(start as int, i as int)),
            v <= 0xFFFF,
            forall|k: int| start <= k < i ==> is_hex_digit(#[trigger] t@[k]),
        decreases n - i,
    {
        let c = t.get_char(i);
        let digit: u32 = if '0' <= c && c <= '9' {
            (c as u32) - ('0' as u32)
        } else if 'a' <= c && c <= 'f' {
            (c as u32) - ('a' as u32) + 10
        } else if 'A' <= c && c <= 'F' {
            (c as u32) - ('A' as u32) + 10
        } else {
            proof {
                assert(!is_hex_digit(d[i - start]));
            }
            return None;
        };
        proof {
            assert(t@.subrange(start as int, i + 1).drop_last() =~= t@.subrange(
                start as int,
                i as int,
            ));
            assert(t@.subrange(start as int, i + 1).last() == c);
        }
        v = v * 16 + digit;
        if v > 0xFFFF {
            proof {
                assert(d.take(i + 1 - start) =~= t@.subrange(start as int, i + 1));
                lemma_hex_value_prefix(d, i + 1 - start);
            }
            return None;
        }
        i = i + 1;
    }
    proof {
        assert(t@.subrange(start as int, n as int) =~= d);
        assert forall|k: int| 0 <= k < d.len() implies is_hex_digit(#[trigger] d[k]) by {
            assert(d[k] == t@[start + k]);
        }
    }
    Some(v as u16)
}

/// The keycode typed in the hexadecimal field, surrounding white space ignored;
/// `None` when the text is not a 16-bit hexadecimal number.
pub fn parse_hex_keycode(text: &str) -> (r: Option<u16>)
    ensures
        r == spec_parse_hex_u16(spec_trim(text@)),
{
    parse_hex_u16(trim_text(text))
}

} // verus!
