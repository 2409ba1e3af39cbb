//! The keyboard configuration file: its records, and how they are built from the
//! lists the firmware reports (export) or counted when written back (import).
//! The JSON form is read and written by the application.
use vstd::prelude::*;
use crate::entries::{copy_bytes, ComboEntry, LeaderEntry, MacroEntry, MacroStep};
use crate::text::{decimal, push_char, push_decimal};
use crate::key_selector::{hex_digit_value, hex_value, is_hex_digit, spec_parse_hex_u16};

verus! {

/// The whole configuration of a keyboard.
pub struct KeyboardConfig {
    pub version: u32,
    pub layer_names: Vec<String>,
    /// `keymaps[layer][row][col]` = keycode
    pub keymaps: Vec<Vec<Vec<u16>>>,
    pub tap_dances: Vec<TdConfig>,
    pub combos: Vec<ComboConfig>,
    pub key_overrides: Vec<KoConfig>,
    pub leaders: Vec<LeaderConfig>,
    pub macros: Vec<MacroConfig>,
}

/// A tap-dance slot and its four actions.
#[derive(Clone, Copy, Debug, PartialEq, Eq)]
pub struct TdConfig {
    pub index: u8,
    pub actions: [u16; 4],
}

/// A combo.
#[derive(Clone, Copy, Debug, PartialEq, Eq, Structural)]
pub struct ComboConfig {
    pub index: u8,
    pub r1: u8,
    pub c1: u8,
    pub r2: u8,
    pub c2: u8,
    pub result: u16,
}

/// A key override: trigger key and modifiers, result key and modifiers.
#[derive(Clone, Copy, Debug, PartialEq, Eq, Structural)]
pub struct KoConfig {
    pub trigger_key: u8,
    pub trigger_mod: u8,
    pub result_key: u8,
    pub result_mod: u8,
}

/// A leader sequence.
pub struct LeaderConfig {
    pub index: u8,
    pub sequence: Vec<u8>,
    pub result: u8,
    pub result_mod: u8,
}

/// A macro.
pub struct MacroConfig {
    pub slot: u8,
    pub name: String,
    /// Steps as `"KK:MM,KK:MM,..."` (uppercase hex).
    pub steps: String,
}

/// Whether a tap-dance slot has any action set.
pub open spec fn td_in_use(actions: [u16; 4]) -> bool {
    actions[0] != 0 || actions[1] != 0 || actions[2] != 0 || actions[3] != 0
}

/// The tap-dance records exported for the first `n` slots: the slots in use, with
/// their position as index.
pub open spec fn spec_td_configs(td: Seq<[u16; 4]>, n: int) -> Seq<(u8, [u16; 4])>
    decreases n,
{
    if n <= 0 {
        Seq::empty()
    } else if td_in_use(td[n - 1]) {
        spec_td_configs(td, n - 1).push(((n - 1) as u8, td[n - 1]))
    } else {
        spec_td_configs(td, n - 1)
    }
}

/// The exported tap dances are exactly the slots with at least one action, in slot
/// order, each with its own slot number as index and its own actions.
pub proof fn lemma_td_configs_are_used_slots(td: Seq<[u16; 4]>, n: int)
    requires
        0 <= n <= td.len(),
        n <= 256,
    ensures
        ({
            let out = spec_td_configs(td, n);
            &&& forall|k: int|
                0 <= k < out.len() ==> (#[trigger] out[k]).0 < n && out[k].1 == td[out[k].0 as int]
                    && (out[k].1[0] != 0 || out[k].1[1] != 0 || out[k].1[2] != 0 || out[k].1[3]
                    != 0)
            &&& forall|k1: int, k2: int|
                0 <= k1 < k2 < out.len() ==> (#[trigger] out[k1]).0 < (#[trigger] out[k2]).0
            &&& forall|j: int|
                0 <= j < n && (td[j][0] != 0 || td[j][1] != 0 || td[j][2] != 0 || td[j][3] != 0)
                    ==> exists|k: int| 0 <= k < out.len() && (#[trigger] out[k]).0 == j
        }),
    decreases n,
{
    if n > 0 {
        lemma_td_configs_are_used_slots(td, n - 1);
        let prev = spec_td_configs(td, n - 1);
        let out = spec_td_configs(td, n);
        if td_in_use(td[n - 1]) {
            assert(out == prev.push(((n - 1) as u8, td[n - 1])));
            assert forall|k: int| 0 <= k < prev.len() implies #[trigger] out[k] == prev[k] by {}
            assert(out[prev.len() as int].0 == n - 1);
            assert forall|j: int|
                0 <= j < n && (td[j][0] != 0 || td[j][1] != 0 || td[j][2] != 0 || td[j][3] != 0)
                implies exists|k: int| 0 <= k < out.len() && (#[trigger] out[k]).0 == j by {
                if j == n - 1 {
                    assert(out[prev.len() as int].0 == j);
                } else {
                    let k = choose|k: int| 0 <= k < prev.len() && (#[trigger] prev[k]).0 == j;
                    assert(out[k] == prev[k]);
                }
            }
        }
    }
}

/// The `(index, actions)` pairs of tap-dance records.
pub open spec fn td_view(tds: Seq<TdConfig>) -> Seq<(u8, [u16; 4])> {
    tds.map_values(|t: TdConfig| (t.index, t.actions))
}

/// The tap-dance records to export: every slot with at least one action.
pub fn tap_dance_configs(td_raw: &Vec<[u16; 4]>) -> (out: Vec<TdConfig>)
    ensures
        td_view(out@) == spec_td_configs(td_raw@, td_raw@.len() as int),
{
    let mut out: Vec<TdConfig> = Vec::new();
    let n = td_raw.len();
    let mut i: usize = 0;
    while i < n
        invariant
            n == td_raw@.len(),
            i <= n,
            td_view(out@) == spec_td_configs(td_raw@, i as int),
        decreases n - i,
    {
        let actions = td_raw[i];
        if actions[0] != 0 || actions[1] != 0 || actions[2] != 0 || actions[3] != 0 {
            let ghost before = out@;
            out.push(TdConfig { index: i as u8, actions });
            proof {
                assert(td_view(out@) =~= td_view(before).push((i as u8, actions)));
            }
        }
        i = i + 1;
    }
    out
}

/// The combo records to export.
pub fn combo_configs(combos: &Vec<ComboEntry>) -> (out: Vec<ComboConfig>)
    ensures
        out@.len() == combos@.len(),
        forall|i: int|
            0 <= i < combos@.len() ==> (#[trigger] out@[i]) == (ComboConfig {
                index: combos@[i].index,
                r1: combos@[i].r1,
                c1: combos@[i].c1,
                r2: combos@[i].r2,
                c2: combos@[i].c2,
                result: combos@[i].result,
            }),
{
    let mut out: Vec<ComboConfig> = Vec::new();
    let n = combos.len();
    let mut i: usize = 0;
    while i < n
        invariant
            n == combos@.len(),
            i <= n,
            out@.len() == i,
            forall|j: int|
                0 <= j < i ==> (#[trigger] out@[j]) == (ComboConfig {
                    index: combos@[j].index,
                    r1: combos@[j].r1,
                    c1: combos@[j].c1,
                    r2: combos@[j].r2,
                    c2: combos@[j].c2,
                    result: combos@[j].result,
                }),
        decreases n - i,
    {
        let c = &combos[i];
        out.push(ComboConfig { index: c.index, r1: c.r1, c1: c.c1, r2: c.r2, c2: c.c2, result: c.result });
        i = i + 1;
    }
    out
}

/// The key-override records to export, from `[trigger, trigger_mod, result, result_mod]`.
pub fn ko_configs(kos: &Vec<[u8; 4]>) -> (out: Vec<KoConfig>)
    ensures
        out@.len() == kos@.len(),
        forall|i: int|
            0 <= i < kos@.len() ==> (#[trigger] out@[i]) == (KoConfig {
                trigger_key: kos@[i][0],
                trigger_mod: kos@[i][1],
                result_key: kos@[i][2],
                result_mod: kos@[i][3],
            }),
{
    let mut out: Vec<KoConfig> = Vec::new();
    let n = kos.len();
    let mut i: usize = 0;
    while i < n
        invariant
            n == kos@.len(),
            i <= n,
            out@.len() == i,
            forall|j: int|
                0 <= j < i ==> (#[trigger] out@[j]) == (KoConfig {
                    trigger_key: kos@[j][0],
                    trigger_mod: kos@[j][1],
                    result_key: kos@[j][2],
                    result_mod: kos@[j][3],
                }),
        decreases n - i,
    {
        let ko = kos[i];
        out.push(KoConfig { trigger_key: ko[0], trigger_mod: ko[1], result_key: ko[2], result_mod: ko[3] });
        i = i + 1;
    }
    out
}

/// The leader records to export.
pub fn leader_configs(leaders: &Vec<LeaderEntry>) -> (out: Vec<LeaderConfig>)
    ensures
        out@.len() == leaders@.len(),
        forall|i: int|
            0 <= i < leaders@.len() ==> {
                &&& (#[trigger] out@[i]).index == leaders@[i].index
                &&& out@[i].sequence@ == leaders@[i].sequence@
                &&& out@[i].result == leaders@[i].result
                &&& out@[i].result_mod == leaders@[i].result_mod
            },
{
    let mut out: Vec<LeaderConfig> = Vec::new();
    let n = leaders.len();
    let mut i: usize = 0;
    while i < n
        invariant
            n == leaders@.len(),
            i <= n,
            out@.len() == i,
            forall|j: int|
                0 <= j < i ==> {
                    &&& (#[trigger] out@[j]).index == leaders@[j].index
                    &&& out@[j].sequence@ == leaders@[j].sequence@
                    &&& out@[j].result == leaders@[j].result
                    &&& out@[j].result_mod == leaders@[j].result_mod
                },
        decreases n - i,
    {
        let l = &leaders[i];
        out.push(
            LeaderConfig {
                index: l.index,
                sequence: copy_bytes(&l.sequence),
                result: l.result,
                result_mod: l.result_mod,
            },
        );
        i = i + 1;
    }
    out
}

/// Uppercase hex digit of a value below 16.
pub open spec fn upper_hex_char(n: int) -> char {
    if n < 10 {
        (('0' as int) + n) as char
    } else {
        (('A' as int) + n - 10) as char
    }
}

/// `KK:MM` for one step, two uppercase hex digits each.
pub open spec fn step_text(kc: u8, md: u8) -> Seq<char> {
    seq![
        upper_hex_char(kc as int / 16),
        upper_hex_char(kc as int % 16),
        ':',
        upper_hex_char(md as int / 16),
        upper_hex_char(md as int % 16),
    ]
}

proof fn lemma_two_hex_digits(b: u8)
    ensures
        spec_parse_hex_u16(seq![upper_hex_char(b as int / 16), upper_hex_char(b as int % 16)])
            == Some(b as u16),
{
    let hi = b as int / 16;
    let lo = b as int % 16;
    let t = seq![upper_hex_char(hi), upper_hex_char(lo)];
    assert(is_hex_digit(t[0]) && hex_digit_value(t[0]) == hi);
    assert(is_hex_digit(t[1]) && hex_digit_value(t[1]) == lo);
    assert(t[0] != '+');
    assert(t.drop_last() =~= seq![t[0]]);
    assert(seq![t[0]].drop_last() =~= Seq::<char>::empty());
    assert(hex_value(Seq::<char>::empty()) == 0);
    assert(hex_value(seq![t[0]]) == hi);
    assert(hex_value(t) == hi * 16 + lo);
    assert forall|k: int| 0 <= k < t.len() implies is_hex_digit(#[trigger] t[k]) by {}
}

/// The text of a macro step reads back as the step: its first two characters are the
/// keycode in hexadecimal, then a colon, then the modifier byte in hexadecimal.
pub proof fn lemma_step_text_reads_back(kc: u8, md: u8)
    ensures
        step_text(kc, md).len() == 5,
        step_text(kc, md)[2] == ':',
        spec_parse_hex_u16(step_text(kc, md).subrange(0, 2)) == Some(kc as u16),
        spec_parse_hex_u16(step_text(kc, md).subrange(3, 5)) == Some(md as u16),
{
    lemma_two_hex_digits(kc);
    lemma_two_hex_digits(md);
    let t = step_text(kc, md);
    assert(t.subrange(0, 2) =~= seq![
        upper_hex_char(kc as int / 16),
        upper_hex_char(kc as int % 16),
    ]);
    assert(t.subrange(3, 5) =~= seq![
        upper_hex_char(md as int / 16),
        upper_hex_char(md as int % 16),
    ]);
}

/// The steps of a macro as `KK:MM` items joined by commas.
pub open spec fn spec_steps_text(steps: Seq<(u8, u8)>) -> Seq<char>
    decreases steps.len(),
{
    if steps.len() == 0 {
        Seq::empty()
    } else if steps.len() == 1 {
        step_text(steps[0].0, steps[0].1)
    } else {
        spec_steps_text(steps.drop_last()) + seq![','] + step_text(
            steps.last().0,
            steps.last().1,
        )
    }
}

fn upper_hex_digit(v: u8) -> (ch: char)
    requires
        v < 16,
    ensures
        ch == upper_hex_char(v as int),
{
    if v < 10 {
        ((0x30u8 + v) as char)
    } else {
        ((0x41u8 + v - 10) as char)
    }
}

/// Text form of macro steps `(keycode, modifier)`: `"KK:MM,KK:MM,..."`.
pub fn macro_steps_text(steps: &Vec<(u8, u8)>) -> (text: String)
    ensures
        text@ == spec_steps_text(steps@),
{
    let mut text = String::new();
    let n = steps.len();
    let mut i: usize = 0;
    while i < n
        invariant
            n == steps@.len(),
            i <= n,
            text@ == spec_steps_text(steps@.take(i as int)),
        decreases n - i,
    {
        let (kc, md) = steps[i];
        let ghost before = text@;
        if i > 0 {
            push_char(&mut text, ',');
        }
        push_char(&mut text, upper_hex_digit(kc / 16));
        push_char(&mut text, upper_hex_digit(kc % 16));
        push_char(&mut text, ':');
        push_char(&mut text, upper_hex_digit(md / 16));
        push_char(&mut text, upper_hex_digit(md % 16));
        proof {
            let t = steps@.take(i + 1);
            assert(t.drop_last() =~= steps@.take(i as int));
            assert(t.last() == (kc, md));
            if i > 0 {
                assert(text@ =~= before + seq![','] + step_text(kc, md));
            } else {
                assert(text@ =~= step_text(kc, md));
            }
        }
        i = i + 1;
    }
    proof {
        assert(steps@.take(n as int) =~= steps@);
    }
    text
}

/// The `(keycode, modifier)` pairs of macro steps.
pub open spec fn step_pairs(steps: Seq<MacroStep>) -> Seq<(u8, u8)> {
    steps.map_values(|s: MacroStep| (s.keycode, s.modifier))
}

/// The macro record to export.
pub fn macro_config(m: &MacroEntry) -> (out: MacroConfig)
    ensures
        out.slot == m.slot,
        out.name@ == m.name@,
        out.steps@ == spec_steps_text(step_pairs(m.steps@)),
{
    let mut pairs: Vec<(u8, u8)> = Vec::new();
    let n = m.steps.len();
    let mut i: usize = 0;
    while i < n
        invariant
            n == m.steps@.len(),
            i <= n,
            pairs@ == step_pairs(m.steps@).take(i as int),
        decreases n - i,
    {
        let s = m.steps[i];
        pairs.push((s.keycode, s.modifier));
        proof {
            assert(pairs@ =~= step_pairs(m.steps@).take(i + 1));
        }
        i = i + 1;
    }
    proof {
        assert(step_pairs(m.steps@).take(n as int) =~= step_pairs(m.steps@));
    }
    MacroConfig { slot: m.slot, name: m.name.clone(), steps: macro_steps_text(&pairs) }
}

/// Number of write steps an import performs (at least 1, so progress can divide by it).
pub open spec fn spec_total_steps(c: KeyboardConfig) -> int {
    let sum = c.layer_names@.len() + c.keymaps@.len() + c.tap_dances@.len() + c.combos@.len()
        + c.key_overrides@.len() + c.leaders@.len() + c.macros@.len();
    if sum >= 1 {
        sum as int
    } else {
        1
    }
}

/// The number of write steps of an import.
pub fn config_total_steps(c: &KeyboardConfig) -> (n: usize)
    requires
        c.layer_names@.len() + c.keymaps@.len() + c.tap_dances@.len() + c.combos@.len()
            + c.key_overrides@.len() + c.leaders@.len() + c.macros@.len() <= usize::MAX,
    ensures
        n == spec_total_steps(*c),
{
    let sum = c.layer_names.len() + c.keymaps.len() + c.tap_dances.len() + c.combos.len()
        + c.key_overrides.len() + c.leaders.len() + c.macros.len();
    if sum >= 1 {
        sum
    } else {
        1
    }
}

/// Number of keys in the first `n` rows of a layer.
pub open spec fn layer_keys(rows: Seq<Vec<u16>>, n: int) -> int
    decreases n,
{
    if n <= 0 {
        0
    } else {
        layer_keys(rows, n - 1) + rows[n - 1]@.len()
    }
}

/// Number of keys in the first `n` layers.
pub open spec fn keymap_keys(layers: Seq<Vec<Vec<u16>>>, n: int) -> int
    decreases n,
{
    if n <= 0 {
        0
    } else {
        keymap_keys(layers, n - 1) + layer_keys(layers[n - 1]@, layers[n - 1]@.len() as int)
    }
}

proof fn lemma_layer_keys_monotone(rows: Seq<Vec<u16>>, i: int, j: int)
    requires
        0 <= i <= j,
    ensures
        layer_keys(rows, i) <= layer_keys(rows, j),
    decreases j,
{
    if i < j {
        lemma_layer_keys_monotone(rows, i, j - 1);
    }
}

proof fn lemma_keymap_keys_monotone(layers: Seq<Vec<Vec<u16>>>, i: int, j: int)
    requires
        0 <= i <= j,
    ensures
        keymap_keys(layers, i) <= keymap_keys(layers, j),
    decreases j,
{
    if i < j {
        lemma_keymap_keys_monotone(layers, i, j - 1);
        let rows = layers[j - 1]@;
        lemma_layer_keys_monotone(rows, 0, rows.len() as int);
    }
}

/// The total number of keys over all layers of a configuration.
pub fn config_total_keys(keymaps: &Vec<Vec<Vec<u16>>>) -> (n: usize)
    requires
        keymap_keys(keymaps@, keymaps@.len() as int) <= usize::MAX,
    ensures
        n == keymap_keys(keymaps@, keymaps@.len() as int),
{
    let mut total: usize = 0;
    let nl = keymaps.len();
    let mut l: usize = 0;
    while l < nl
        invariant
            nl == keymaps@.len(),
            l <= nl,
            keymap_keys(keymaps@, nl as int) <= usize::MAX,
            total == keymap_keys(keymaps@, l as int),
        decreases nl - l,
    {
        let rows = &keymaps[l];
        let nr = rows.len();
        let mut r: usize = 0;
        proof {
            lemma_keymap_keys_monotone(keymaps@, l + 1, nl as int);
        }
        while r < nr
            invariant
                nl == keymaps@.len(),
                l < nl,
                nr == rows@.len(),
                rows == keymaps@[l as int],
                r <= nr,
                keymap_keys(keymaps@, l + 1) <= usize::MAX,
                total == keymap_keys(keymaps@, l as int) + layer_keys(rows@, r as int),
            decreases nr - r,
        {
            proof {
                lemma_layer_keys_monotone(rows@, r + 1, nr as int);
            }
            total = total + rows[r].len();
            r = r + 1;
        }
        l = l + 1;
    }
    total
}

/// One write of an import, with the values it sends.
pub enum ImportStep {
    /// Rename layer `layer` to `layer_names[source]`.
    LayerName { layer: u8, source: usize },
    /// Write `keymaps[source]` as layer `layer`.
    Keymap { layer: u8, source: usize },
    TapDance { index: u8, actions: [u16; 4] },
    /// A combo; the result is sent as its low byte.
    Combo { index: u8, r1: u8, c1: u8, r2: u8, c2: u8, result: u8 },
    /// A key override, numbered by its position in the file.
    KeyOverride { index: u8, trigger_key: u8, trigger_mod: u8, result_key: u8, result_mod: u8 },
    /// Write `leaders[source]` under its own index.
    Leader { index: u8, source: usize },
    /// Add `macros[source]` in its own slot.
    Macro { slot: u8, source: usize },
}

/// The writes of an import, in order: layer names, keymaps, tap dances, combos,
/// key overrides, leaders, macros.
pub open spec fn spec_import_plan(c: KeyboardConfig) -> Seq<ImportStep> {
    Seq::new(c.layer_names@.len(), |i: int| ImportStep::LayerName { layer: i as u8, source: i as usize })
        + Seq::new(c.keymaps@.len(), |i: int| ImportStep::Keymap { layer: i as u8, source: i as usize })
        + Seq::new(
        c.tap_dances@.len(),
        |i: int|
            ImportStep::TapDance { index: c.tap_dances@[i].index, actions: c.tap_dances@[i].actions },
    ) + Seq::new(
        c.combos@.len(),
        |i: int|
            ImportStep::Combo {
                index: c.combos@[i].index,
                r1: c.combos@[i].r1,
                c1: c.combos@[i].c1,
                r2: c.combos@[i].r2,
                c2: c.combos@[i].c2,
                result: (c.combos@[i].result % 256) as u8,
            },
    ) + Seq::new(
        c.key_overrides@.len(),
        |i: int|
            ImportStep::KeyOverride {
                index: i as u8,
                trigger_key: c.key_overrides@[i].trigger_key,
                trigger_mod: c.key_overrides@[i].trigger_mod,
                result_key: c.key_overrides@[i].result_key,
                result_mod: c.key_overrides@[i].result_mod,
            },
    ) + Seq::new(
        c.leaders@.len(),
        |i: int| ImportStep::Leader { index: c.leaders@[i].index, source: i as usize },
    ) + Seq::new(
        c.macros@.len(),
        |i: int| ImportStep::Macro { slot: c.macros@[i].slot, source: i as usize },
    )
}

/// The writes an import performs for a configuration.
pub fn import_plan(c: &KeyboardConfig) -> (plan: Vec<ImportStep>)
    requires
        c.layer_names@.len() + c.keymaps@.len() + c.tap_dances@.len() + c.combos@.len()
            + c.key_overrides@.len() + c.leaders@.len() + c.macros@.len() <= usize::MAX,
    ensures
        plan@ == spec_import_plan(*c),
{
    let mut plan: Vec<ImportStep> = Vec::new();
    let ghost p1 = Seq::new(
        c.layer_names@.len(),
        |i: int| ImportStep::LayerName { layer: i as u8, source: i as usize },
    );
    let n = c.layer_names.len();
    let mut i: usize = 0;
    while i < n
        invariant
            n == c.layer_names@.len(),
            i <= n,
            plan@ =~= p1.take(i as int),
            p1 == Seq::new(
                c.layer_names@.len(),
                |i: int| ImportStep::LayerName { layer: i as u8, source: i as usize },
            ),
        decreases n - i,
    {
        plan.push(ImportStep::LayerName { layer: #[verifier::truncate] (i as u8), source: i });
        i = i + 1;
    }
    let ghost s1 = plan@;
    let ghost p2 = Seq::new(
        c.keymaps@.len(),
        |i: int| ImportStep::Keymap { layer: i as u8, source: i as usize },
    );
    let n = c.keymaps.len();
    let mut i: usize = 0;
    while i < n
        invariant
            n == c.keymaps@.len(),
            i <= n,
            plan@ =~= s1 + p2.take(i as int),
            p2 == Seq::new(
                c.keymaps@.len(),
                |i: int| ImportStep::Keymap { layer: i as u8, source: i as usize },
            ),
        decreases n - i,
    {
        plan.push(ImportStep::Keymap { layer: #[verifier::truncate] (i as u8), source: i });
        i = i + 1;
    }
    let ghost s2 = plan@;
    let ghost p3 = Seq::new(
        c.tap_dances@.len(),
        |i: int|
            ImportStep::TapDance { index: c.tap_dances@[i].index, actions: c.tap_dances@[i].actions },
    );
    let n = c.tap_dances.len();
    let mut i: usize = 0;
    while i < n
        invariant
            n == c.tap_dances@.len(),
            i <= n,
            plan@ =~= s2 + p3.take(i as int),
            p3 == Seq::new(
                c.tap_dances@.len(),
                |i: int|
                    ImportStep::TapDance {
                        index: c.tap_dances@[i].index,
                        actions: c.tap_dances@[i].actions,
                    },
            ),
        decreases n - i,
    {
        let td = c.tap_dances[i];
        plan.push(ImportStep::TapDance { index: td.index, actions: td.actions });
        i = i + 1;
    }
    let ghost s3 = plan@;
    let ghost p4 = Seq::new(
        c.combos@.len(),
        |i: int|
            ImportStep::Combo {
                index: c.combos@[i].index,
                r1: c.combos@[i].r1,
                c1: c.combos@[i].c1,
                r2: c.combos@[i].r2,
                c2: c.combos@[i].c2,
                result: (c.combos@[i].result % 256) as u8,
            },
    );
    let n = c.combos.len();
    let mut i: usize = 0;
    while i < n
        invariant
            n == c.combos@.len(),
            i <= n,
            plan@ =~= s3 + p4.take(i as int),
            p4 == Seq::new(
                c.combos@.len(),
                |i: int|
                    ImportStep::Combo {
                        index: c.combos@[i].index,
                        r1: c.combos@[i].r1,
                        c1: c.combos@[i].c1,
                        r2: c.combos@[i].r2,
                        c2: c.combos@[i].c2,
                        result: (c.combos@[i].result % 256) as u8,
                    },
            ),
        decreases n - i,
    {
        let cb = c.combos[i];
        plan.push(
            ImportStep::Combo {
                index: cb.index,
                r1: cb.r1,
                c1: cb.c1,
                r2: cb.r2,
                c2: cb.c2,
                result: (cb.result % 256) as u8,
            },
        );
        i = i + 1;
    }
    let ghost s4 = plan@;
    let ghost p5 = Seq::new(
        c.key_overrides@.len(),
        |i: int|
            ImportStep::KeyOverride {
                index: i as u8,
                trigger_key: c.key_overrides@[i].trigger_key,
                trigger_mod: c.key_overrides@[i].trigger_mod,
                result_key: c.key_overrides@[i].result_key,
                result_mod: c.key_overrides@[i].result_mod,
            },
    );
    let n = c.key_overrides.len();
    let mut i: usize = 0;
    while i < n
        invariant
            n == c.key_overrides@.len(),
            i <= n,
            plan@ =~= s4 + p5.take(i as int),
            p5 == Seq::new(
                c.key_overrides@.len(),
                |i: int|
                    ImportStep::KeyOverride {
                        index: i as u8,
                        trigger_key: c.key_overrides@[i].trigger_key,
                        trigger_mod: c.key_overrides@[i].trigger_mod,
                        result_key: c.key_overrides@[i].result_key,
                        result_mod: c.key_overrides@[i].result_mod,
                    },
            ),
        decreases n - i,
    {
        let ko = c.key_overrides[i];
        plan.push(
            ImportStep::KeyOverride {
                index: #[verifier::truncate] (i as u8),
                trigger_key: ko.trigger_key,
                trigger_mod: ko.trigger_mod,
                result_key: ko.result_key,
                result_mod: ko.result_mod,
            },
        );
        i = i + 1;
    }
    let ghost s5 = plan@;
    let ghost p6 = Seq::new(
        c.leaders@.len(),
        |i: int| ImportStep::Leader { index: c.leaders@[i].index, source: i as usize },
    );
    let n = c.leaders.len();
    let mut i: usize = 0;
    while i < n
        invariant
            n == c.leaders@.len(),
            i <= n,
            plan@ =~= s5 + p6.take(i as int),
            p6 == Seq::new(
                c.leaders@.len(),
                |i: int| ImportStep::Leader { index: c.leaders@[i].index, source: i as usize },
            ),
        decreases n - i,
    {
        plan.push(ImportStep::Leader { index: c.leaders[i].index, source: i });
        i = i + 1;
    }
    let ghost s6 = plan@;
    let ghost p7 = Seq::new(
        c.macros@.len(),
        |i: int| ImportStep::Macro { slot: c.macros@[i].slot, source: i as usize },
    );
    let n = c.macros.len();
    let mut i: usize = 0;
    while i < n
        invariant
            n == c.macros@.len(),
            i <= n,
            plan@ =~= s6 + p7.take(i as int),
            p7 == Seq::new(
                c.macros@.len(),
                |i: int| ImportStep::Macro { slot: c.macros@[i].slot, source: i as usize },
            ),
        decreases n - i,
    {
        plan.push(ImportStep::Macro { slot: c.macros[i].slot, source: i });
        i = i + 1;
    }
    proof {
        assert(p1.take(p1.len() as int) =~= p1);
        assert(p2.take(p2.len() as int) =~= p2);
        assert(p3.take(p3.len() as int) =~= p3);
        assert(p4.take(p4.len() as int) =~= p4);
        assert(p5.take(p5.len() as int) =~= p5);
        assert(p6.take(p6.len() as int) =~= p6);
        assert(p7.take(p7.len() as int) =~= p7);
        assert(plan@ =~= spec_import_plan(*c));
    }
    plan
}

/// Number of layers an export reads: one per layer name, at least one.
pub fn export_layer_count(names: usize) -> (n: usize)
    ensures
        n == (if names >= 1 { names } else { 1 }),
{
    if names >= 1 {
        names
    } else {
        1
    }
}

/// The message that ends an import: the number of failed writes, or what was written.
pub open spec fn spec_import_summary(errors: nat, c: KeyboardConfig, total_keys: nat) -> Seq<char> {
    if errors > 0 {
        "Import done with "@ + decimal(errors) + " errors (check stderr)"@
    } else {
        "Imported: "@ + decimal(c.layer_names@.len()) + " layers, "@ + decimal(total_keys)
            + " keys, "@ + decimal(c.tap_dances@.len()) + " TD, "@ + decimal(c.combos@.len())
            + " combos, "@ + decimal(c.key_overrides@.len()) + " KO, "@ + decimal(
            c.leaders@.len(),
        ) + " leaders, "@ + decimal(c.macros@.len()) + " macros"@
    }
}

/// Build the message that ends an import.
pub fn import_summary(errors: usize, c: &KeyboardConfig, total_keys: usize) -> (msg: String)
    ensures
        msg@ == spec_import_summary(errors as nat, *c, total_keys as nat),
{
    if errors > 0 {
        let mut msg = String::from_str("Import done with ");
        push_decimal(&mut msg, errors);
        msg.append(" errors (check stderr)");
        msg
    } else {
        let mut msg = String::from_str("Imported: ");
        push_decimal(&mut msg, c.layer_names.len());
        msg.append(" layers, ");
        push_decimal(&mut msg, total_keys);
        msg.append(" keys, ");
        push_decimal(&mut msg, c.tap_dances.len());
        msg.append(" TD, ");
        push_decimal(&mut msg, c.combos.len());
        msg.append(" combos, ");
        push_decimal(&mut msg, c.key_overrides.len());
        msg.append(" KO, ");
        push_decimal(&mut msg, c.leaders.len());
        msg.append(" leaders, ");
        push_decimal(&mut msg, c.macros.len());
        msg.append(" macros");
        msg
    }
}

/// Position of the first combo write in an import.
pub open spec fn combo_steps_start(c: KeyboardConfig) -> int {
    (c.layer_names@.len() + c.keymaps@.len() + c.tap_dances@.len()) as int
}

/// Importing a configuration sends back the records it holds: each tap dance with its
/// index and actions, each combo with its index and positions and, when it fits a
/// byte, its result, and each key override under its position in the file.
pub proof fn lemma_import_sends_records(c: KeyboardConfig, i: int)
    ensures
        0 <= i < c.tap_dances@.len() ==> spec_import_plan(c)[c.layer_names@.len()
            + c.keymaps@.len() + i] == (ImportStep::TapDance {
            index: c.tap_dances@[i].index,
            actions: c.tap_dances@[i].actions,
        }),
        0 <= i < c.combos@.len() && c.combos@[i].result < 256 ==> spec_import_plan(c)[
            combo_steps_start(c) + i] == (ImportStep::Combo {
            index: c.combos@[i].index,
            r1: c.combos@[i].r1,
            c1: c.combos@[i].c1,
            r2: c.combos@[i].r2,
            c2: c.combos@[i].c2,
            result: c.combos@[i].result as u8,
        }),
        0 <= i < c.key_overrides@.len() && i < 256 ==> spec_import_plan(c)[combo_steps_start(c)
            + c.combos@.len() + i] == (ImportStep::KeyOverride {
            index: i as u8,
            trigger_key: c.key_overrides@[i].trigger_key,
            trigger_mod: c.key_overrides@[i].trigger_mod,
            result_key: c.key_overrides@[i].result_key,
            result_mod: c.key_overrides@[i].result_mod,
        }),
{
}

/// Importing a configuration writes each layer with its own name and its own keymap
/// from the file, in layer order, then each leader and each macro from its own record.
pub proof fn lemma_import_uses_own_records(c: KeyboardConfig, i: int)
    ensures
        0 <= i < c.layer_names@.len() ==> (spec_import_plan(c)[i] matches ImportStep::LayerName {
            layer,
            source,
        } && source == i && (i < 256 ==> layer == i)),
        0 <= i < c.keymaps@.len() ==> (spec_import_plan(c)[c.layer_names@.len() + i] matches ImportStep::Keymap {
            layer,
            source,
        } && source == i && (i < 256 ==> layer == i)),
        0 <= i < c.leaders@.len() ==> (spec_import_plan(c)[combo_steps_start(c) + c.combos@.len()
            + c.key_overrides@.len() + i] matches ImportStep::Leader { index, source }
            && source == i && index == c.leaders@[i].index),
        0 <= i < c.macros@.len() ==> (spec_import_plan(c)[combo_steps_start(c) + c.combos@.len()
            + c.key_overrides@.len() + c.leaders@.len() + i] matches ImportStep::Macro {
            slot,
            source,
        } && source == i && slot == c.macros@[i].slot),
        spec_import_plan(c).len() == c.layer_names@.len() + c.keymaps@.len()
            + c.tap_dances@.len() + c.combos@.len() + c.key_overrides@.len() + c.leaders@.len()
            + c.macros@.len(),
{
    let p = spec_import_plan(c);
    assert(c.layer_names.len() == c.layer_names@.len());
    assert(c.keymaps.len() == c.keymaps@.len());
    assert(c.leaders.len() == c.leaders@.len());
    assert(c.macros.len() == c.macros@.len());
    if 0 <= i < c.layer_names@.len() {
        assert(p[i] == ImportStep::LayerName { layer: i as u8, source: i as usize });
    }
    if 0 <= i < c.keymaps@.len() {
        assert(p[c.layer_names@.len() + i] == ImportStep::Keymap {
            layer: i as u8,
            source: i as usize,
        });
    }
}

} // verus!
