//! The keymap editor's state and what a pick in the key selector does to it.
use vstd::prelude::*;
use crate::entries::{ComboEntry, LeaderEntry};

verus! {

/// Editor state touched by the key selector.
pub struct EditorState {
    pub current_layer: usize,
    /// `keymap[row][col]` of the current layer.
    pub keymap: Vec<Vec<u16>>,
    pub td_data: Vec<[u16; 4]>,
    pub combo_data: Vec<ComboEntry>,
    pub combo_new_result: u16,
    pub leader_data: Vec<LeaderEntry>,
    pub leader_new_seq: Vec<u8>,
    pub leader_new_result: u8,
    pub leader_new_result_set: bool,
    /// `[trigger, trigger_mod, result, result_mod]` per key override.
    pub ko_data: Vec<[u8; 4]>,
    pub ko_new_trig_key: u8,
    pub ko_new_trig_set: bool,
    pub ko_new_res_key: u8,
    pub ko_new_res_set: bool,
}

/// A leader entry as plain values.
pub struct LeaderView {
    pub index: u8,
    pub sequence: Seq<u8>,
    pub result: u8,
    pub result_mod: u8,
}

/// The editor state as plain values.
pub struct EditorView {
    pub current_layer: usize,
    pub keymap: Seq<Seq<u16>>,
    pub td_data: Seq<Seq<u16>>,
    pub combo_data: Seq<ComboEntry>,
    pub combo_new_result: u16,
    pub leader_data: Seq<LeaderView>,
    pub leader_new_seq: Seq<u8>,
    pub leader_new_result: u8,
    pub leader_new_result_set: bool,
    pub ko_data: Seq<Seq<u8>>,
    pub ko_new_trig_key: u8,
    pub ko_new_trig_set: bool,
    pub ko_new_res_key: u8,
    pub ko_new_res_set: bool,
}

pub open spec fn leader_view(l: LeaderEntry) -> LeaderView {
    LeaderView { index: l.index, sequence: l.sequence@, result: l.result, result_mod: l.result_mod }
}

impl View for EditorState {
    type V = EditorView;

    open spec fn view(&self) -> EditorView {
        EditorView {
            current_layer: self.current_layer,
            keymap: self.keymap@.map_values(|r: Vec<u16>| r@),
            td_data: self.td_data@.map_values(|a: [u16; 4]| a@),
            combo_data: self.combo_data@,
            combo_new_result: self.combo_new_result,
            leader_data: self.leader_data@.map_values(|l: LeaderEntry| leader_view(l)),
            leader_new_seq: self.leader_new_seq@,
            leader_new_result: self.leader_new_result,
            leader_new_result_set: self.leader_new_result_set,
            ko_data: self.ko_data@.map_values(|a: [u8; 4]| a@),
            ko_new_trig_key: self.ko_new_trig_key,
            ko_new_trig_set: self.ko_new_trig_set,
            ko_new_res_key: self.ko_new_res_key,
            ko_new_res_set: self.ko_new_res_set,
        }
    }
}

/// What a pick did; the application shows it and sends the key to the keyboard.
#[derive(PartialEq, Eq, Structural)]
pub enum KeySelection {
    KoResultPicked(u8),
    KoTriggerPicked(u8),
    KoEdited { index: usize, trigger: bool, code: u16 },
    LeaderResultPicked(u8),
    LeaderKeyAppended(u8),
    LeaderResultEdited { index: usize, code: u16 },
    LeaderKeyEdited { index: usize, position: usize, code: u16 },
    ComboResultPicked(u16),
    ComboResultEdited { index: usize, code: u16 },
    /// The key is to be added as a step of the macro being built.
    MacroStep(u16),
    TapDanceEdited { index: usize, slot: usize, code: u16 },
    /// The key was stored in the keymap and must be sent with SETKEY.
    KeySet { layer: u8, row: u8, col: u8, code: u16 },
    InvalidPosition { row: usize, col: usize },
    /// The pick addressed an entry that does not exist; nothing changed.
    Ignored,
}

/// The state and outcome after picking `code` for the target encoded by `row`/`col`:
/// 951 new key-override result, 950 new key-override trigger,
/// 900.. key-override edit (`900 + 10 * index + field`, field 0 trigger, else result),
/// 800.. new leader result, 700.. new leader key (appended, at most 4),
/// 600.. leader result edit (`600 + index`), 500.. leader key edit
/// (`500 + 10 * index + position`), 400.. new combo result, 300.. combo result edit
/// (`300 + index`), 200.. macro step, 100.. tap-dance edit (`100 + index`, slot `col`),
/// below 100 the keymap cell (`row`, `col`) of the current layer.
pub open spec fn spec_select(s: EditorView, row: usize, col: usize, code: u16) -> (
    EditorView,
    KeySelection,
) {
    if row == 951 {
        (
            EditorView { ko_new_res_key: low_byte(code), ko_new_res_set: true, ..s },
            KeySelection::KoResultPicked(low_byte(code)),
        )
    } else if row == 950 {
        (
            EditorView { ko_new_trig_key: low_byte(code), ko_new_trig_set: true, ..s },
            KeySelection::KoTriggerPicked(low_byte(code)),
        )
    } else if row >= 900 {
        let idx = (row - 900) / 10;
        let field = (row - 900) % 10;
        if idx < s.ko_data.len() {
            let k = if field == 0 { 0int } else { 2int };
            let entry = s.ko_data[idx].update(k, low_byte(code));
            (
                EditorView { ko_data: s.ko_data.update(idx, entry), ..s },
                KeySelection::KoEdited { index: idx as usize, trigger: field == 0, code },
            )
        } else {
            (s, KeySelection::Ignored)
        }
    } else if row >= 800 {
        (
            EditorView { leader_new_result: low_byte(code), leader_new_result_set: true, ..s },
            KeySelection::LeaderResultPicked(low_byte(code)),
        )
    } else if row >= 700 {
        if s.leader_new_seq.len() < 4 {
            (
                EditorView { leader_new_seq: s.leader_new_seq.push(low_byte(code)), ..s },
                KeySelection::LeaderKeyAppended(low_byte(code)),
            )
        } else {
            (s, KeySelection::Ignored)
        }
    } else if row >= 600 {
        let idx = row - 600;
        if idx < s.leader_data.len() {
            let l = s.leader_data[idx];
            (
                EditorView {
                    leader_data: s.leader_data.update(idx, LeaderView { result: low_byte(code), ..l }),
                    ..s
                },
                KeySelection::LeaderResultEdited { index: idx as usize, code },
            )
        } else {
            (s, KeySelection::Ignored)
        }
    } else if row >= 500 {
        let idx = (row - 500) / 10;
        let pos = (row - 500) % 10;
        if idx < s.leader_data.len() && pos < s.leader_data[idx].sequence.len() {
            let l = s.leader_data[idx];
            (
                EditorView {
                    leader_data: s.leader_data.update(
                        idx,
                        LeaderView { sequence: l.sequence.update(pos, low_byte(code)), ..l },
                    ),
                    ..s
                },
                KeySelection::LeaderKeyEdited { index: idx as usize, position: pos as usize, code },
            )
        } else {
            (s, KeySelection::Ignored)
        }
    } else if row >= 400 {
        (EditorView { combo_new_result: code, ..s }, KeySelection::ComboResultPicked(code))
    } else if row >= 300 {
        let idx = row - 300;
        if idx < s.combo_data.len() {
            (
                EditorView {
                    combo_data: s.combo_data.update(
                        idx,
                        ComboEntry { result: code, ..s.combo_data[idx] },
                    ),
                    ..s
                },
                KeySelection::ComboResultEdited { index: idx as usize, code },
            )
        } else {
            (s, KeySelection::Ignored)
        }
    } else if row >= 200 {
        (s, KeySelection::MacroStep(code))
    } else if row >= 100 {
        let idx = row - 100;
        if idx < s.td_data.len() && col < 4 {
            (
                EditorView {
                    td_data: s.td_data.update(idx, s.td_data[idx].update(col as int, code)),
                    ..s
                },
                KeySelection::TapDanceEdited { index: idx as usize, slot: col, code },
            )
        } else {
            (s, KeySelection::Ignored)
        }
    } else if row < s.keymap.len() && col < s.keymap[row as int].len() {
        (
            EditorView {
                keymap: s.keymap.update(row as int, s.keymap[row as int].update(col as int, code)),
                ..s
            },
            KeySelection::KeySet {
                layer: #[verifier::truncate] (s.current_layer as u8),
                row: row as u8,
                col: #[verifier::truncate] (col as u8),
                code,
            },
        )
    } else {
        (s, KeySelection::InvalidPosition { row, col })
    }
}

/// The low byte of a keycode (HID usage of a plain key).
pub open spec fn low_byte(code: u16) -> u8 {
    (code % 256) as u8
}

/// The low byte of a keycode.
pub fn key_byte(code: u16) -> (b: u8)
    ensures
        b == low_byte(code),
{
    (code % 256) as u8
}

/// The keycode at (`row`, `col`), or 0 outside the keymap.
pub open spec fn spec_get_key(keymap: Seq<Seq<u16>>, row: int, col: int) -> u16 {
    if 0 <= row < keymap.len() && 0 <= col < keymap[row].len() {
        keymap[row][col]
    } else {
        0
    }
}

impl EditorState {
    /// The state before anything was read from a keyboard: layer 0, empty lists, nothing
    /// picked.
    pub fn new() -> (s: EditorState)
        ensures
            s@ == (EditorView {
                current_layer: 0,
                keymap: Seq::empty(),
                td_data: Seq::empty(),
                combo_data: Seq::empty(),
                combo_new_result: 0,
                leader_data: Seq::empty(),
                leader_new_seq: Seq::empty(),
                leader_new_result: 0,
                leader_new_result_set: false,
                ko_data: Seq::empty(),
                ko_new_trig_key: 0,
                ko_new_trig_set: false,
                ko_new_res_key: 0,
                ko_new_res_set: false,
            }),
    {
        let s = EditorState {
            current_layer: 0,
            keymap: Vec::new(),
            td_data: Vec::new(),
            combo_data: Vec::new(),
            combo_new_result: 0,
            leader_data: Vec::new(),
            leader_new_seq: Vec::new(),
            leader_new_result: 0,
            leader_new_result_set: false,
            ko_data: Vec::new(),
            ko_new_trig_key: 0,
            ko_new_trig_set: false,
            ko_new_res_key: 0,
            ko_new_res_set: false,
        };
        proof {
            assert(s@.keymap =~= Seq::<Seq<u16>>::empty());
            assert(s@.td_data =~= Seq::<Seq<u16>>::empty());
            assert(s@.leader_data =~= Seq::<LeaderView>::empty());
            assert(s@.ko_data =~= Seq::<Seq<u8>>::empty());
        }
        s
    }

    /// Forget the keymap when the keyboard is disconnected.
    pub fn clear_keymap(&mut self)
        ensures
            final(self)@ == (EditorView { keymap: Seq::empty(), ..old(self)@ }),
    {
        self.keymap = Vec::new();
        proof {
            assert(final(self)@.keymap =~= Seq::<Seq<u16>>::empty());
        }
    }

    /// Apply a key picked in the key selector to the target encoded by `row`/`col`.
    #[verifier::spinoff_prover]
    pub fn apply_key_selection(&mut self, row: usize, col: usize, code: u16) -> (r: KeySelection)
        ensures
            (final(self)@, r) == spec_select(old(self)@, row, col, code),
    {
        let byte = key_byte(code);
        if row == 951 {
            self.ko_new_res_key = byte;
            self.ko_new_res_set = true;
            return KeySelection::KoResultPicked(byte);
        }
        if row == 950 {
            self.ko_new_trig_key = byte;
            self.ko_new_trig_set = true;
            return KeySelection::KoTriggerPicked(byte);
        }
        if row >= 900 {
            let offset = row - 900;
            let ko_idx = offset / 10;
            let field = offset % 10;
            if ko_idx < self.ko_data.len() {
                let mut entry = self.ko_data[ko_idx];
                if field == 0 {
                    entry[0] = byte;
                } else {
                    entry[2] = byte;
                }
                let ghost before = self.ko_data@;
                self.ko_data.set(ko_idx, entry);
                proof {
                    let k = if field == 0 { 0int } else { 2int };
                    assert(entry@ =~= before[ko_idx as int]@.update(k, byte));
                    assert(self.ko_data@.map_values(|a: [u8; 4]| a@) =~= before.map_values(
                        |a: [u8; 4]| a@,
                    ).update(ko_idx as int, entry@));
                }
                return KeySelection::KoEdited { index: ko_idx, trigger: field == 0, code };
            }
            return KeySelection::Ignored;
        }
        if row >= 800 {
            self.leader_new_result = byte;
            self.leader_new_result_set = true;
            return KeySelection::LeaderResultPicked(byte);
        }
        if row >= 700 {
            if self.leader_new_seq.len() < 4 {
                self.leader_new_seq.push(byte);
                return KeySelection::LeaderKeyAppended(byte);
            }
            return KeySelection::Ignored;
        }
        if row >= 600 {
            let leader_idx = row - 600;
            if leader_idx < self.leader_data.len() {
                let ghost before = self.leader_data@;
                self.leader_data[leader_idx].result = byte;
                proof {
                    let l = leader_view(before[leader_idx as int]);
                    assert(self.leader_data@.map_values(|l: LeaderEntry| leader_view(l))
                        =~= before.map_values(|l: LeaderEntry| leader_view(l)).update(
                        leader_idx as int,
                        LeaderView { result: byte, ..l },
                    ));
                }
                return KeySelection::LeaderResultEdited { index: leader_idx, code };
            }
            return KeySelection::Ignored;
        }
        if row >= 500 {
            let offset = row - 500;
            let leader_idx = offset / 10;
            let seq_pos = offset % 10;
            if leader_idx < self.leader_data.len() {
                if seq_pos < self.leader_data[leader_idx].sequence.len() {
                    let ghost before = self.leader_data@;
                    self.leader_data[leader_idx].sequence.set(seq_pos, byte);
                    proof {
                        let l = leader_view(before[leader_idx as int]);
                        assert(self.leader_data@.map_values(|l: LeaderEntry| leader_view(l))
                            =~= before.map_values(|l: LeaderEntry| leader_view(l)).update(
                            leader_idx as int,
                            LeaderView { sequence: l.sequence.update(seq_pos as int, byte), ..l },
                        ));
                    }
                    return KeySelection::LeaderKeyEdited {
                        index: leader_idx,
                        position: seq_pos,
                        code,
                    };
                }
            }
            return KeySelection::Ignored;
        }
        if row >= 400 {
            self.combo_new_result = code;
            return KeySelection::ComboResultPicked(code);
        }
        if row >= 300 {
            let combo_idx = row - 300;
            if combo_idx < self.combo_data.len() {
                self.combo_data[combo_idx].result = code;
                return KeySelection::ComboResultEdited { index: combo_idx, code };
            }
            return KeySelection::Ignored;
        }
        if row >= 200 {
            return KeySelection::MacroStep(code);
        }
        if row >= 100 {
            let td_idx = row - 100;
            if td_idx < self.td_data.len() && col < 4 {
                let mut actions = self.td_data[td_idx];
                actions[col] = code;
                let ghost before = self.td_data@;
                self.td_data.set(td_idx, actions);
                proof {
                    assert(actions@ =~= before[td_idx as int]@.update(col as int, code));
                    assert(self.td_data@.map_values(|a: [u16; 4]| a@) =~= before.map_values(
                        |a: [u16; 4]| a@,
                    ).update(td_idx as int, actions@));
                }
                return KeySelection::TapDanceEdited { index: td_idx, slot: col, code };
            }
            return KeySelection::Ignored;
        }
        if row < self.keymap.len() && col < self.keymap[row].len() {
            let ghost before = self.keymap@;
            self.keymap[row].set(col, code);
            proof {
                assert(self.keymap@.map_values(|r: Vec<u16>| r@) =~= before.map_values(
                    |r: Vec<u16>| r@,
                ).update(row as int, before[row as int]@.update(col as int, code)));
            }
            KeySelection::KeySet {
                layer: #[verifier::truncate] (self.current_layer as u8),
                row: row as u8,
                col: #[verifier::truncate] (col as u8),
                code,
            }
        } else {
            KeySelection::InvalidPosition { row, col }
        }
    }

    /// The keycode at (`row`, `col`) of the current layer, 0 outside the keymap.
    pub fn get_key(&self, row: usize, col: usize) -> (k: u16)
        ensures
            k == spec_get_key(self@.keymap, row as int, col as int),
    {
        if row < self.keymap.len() && col < self.keymap[row].len() {
            self.keymap[row][col]
        } else {
            0
        }
    }
}

/// A key picked for a keymap cell is read back from that cell, and every other cell
/// keeps its key.
pub proof fn lemma_keymap_pick_read_back(
    s: EditorView,
    row: usize,
    col: usize,
    code: u16,
    r: int,
    c: int,
)
    requires
        row < 100,
        row < s.keymap.len(),
        col < s.keymap[row as int].len(),
    ensures
        spec_get_key(spec_select(s, row, col, code).0.keymap, row as int, col as int) == code,
        (r != row || c != col) ==> (spec_get_key(spec_select(s, row, col, code).0.keymap, r, c)
            == spec_get_key(s.keymap, r, c)),
        spec_select(s, row, col, code).1 matches KeySelection::KeySet { layer, row: kr, col: kc, code: k }
            && kr == row && k == code && (col < 256 ==> kc == col) && (s.current_layer < 256
            ==> layer == s.current_layer),
{
}

/// A pick for any other target leaves the keymap unchanged, and a keymap pick leaves
/// every other part of the state unchanged.
pub proof fn lemma_pick_targets_are_separate(s: EditorView, row: usize, col: usize, code: u16)
    ensures
        row >= 100 ==> spec_select(s, row, col, code).0.keymap == s.keymap,
        row < 100 ==> spec_select(s, row, col, code).0 == (EditorView {
            keymap: spec_select(s, row, col, code).0.keymap,
            ..s
        }),
{
}

/// The leader sequence being built never grows past four keys.
pub proof fn lemma_leader_seq_bounded(s: EditorView, row: usize, col: usize, code: u16)
    requires
        s.leader_new_seq.len() <= 4,
    ensures
        spec_select(s, row, col, code).0.leader_new_seq.len() <= 4,
{
}

/// Picking `code` for slot `col` of tap dance `i` (row `100 + i`) writes that slot of
/// that tap dance and nothing else, and reports the tap dance and slot.
pub proof fn lemma_tap_dance_pick(s: EditorView, i: usize, col: usize, code: u16)
    requires
        i < 100,
        i < s.td_data.len(),
        col < 4,
        s.td_data[i as int].len() == 4,
    ensures
        ({
            let (t, r) = spec_select(s, (100 + i) as usize, col, code);
            &&& r == (KeySelection::TapDanceEdited { index: i, slot: col, code })
            &&& t.td_data.len() == s.td_data.len()
            &&& t.td_data[i as int].len() == 4
            &&& t.td_data[i as int][col as int] == code
            &&& forall|j: int, k: int|
                0 <= j < s.td_data.len() && 0 <= k < s.td_data[j].len() && (j != i || k != col)
                    ==> #[trigger] t.td_data[j][k] == s.td_data[j][k]
            &&& t == (EditorView { td_data: t.td_data, ..s })
        }),
{
}

/// Picking `code` as the result of combo `i` (row `300 + i`) sets that combo's result,
/// keeps its keys and every other combo, and reports the combo.
pub proof fn lemma_combo_result_pick(s: EditorView, i: usize, code: u16)
    requires
        i < 100,
        i < s.combo_data.len(),
    ensures
        ({
            let (t, r) = spec_select(s, (300 + i) as usize, 0, code);
            &&& r == (KeySelection::ComboResultEdited { index: i, code })
            &&& t.combo_data.len() == s.combo_data.len()
            &&& t.combo_data[i as int].result == code
            &&& t.combo_data[i as int].index == s.combo_data[i as int].index
            &&& t.combo_data[i as int].r1 == s.combo_data[i as int].r1
            &&& t.combo_data[i as int].c1 == s.combo_data[i as int].c1
            &&& t.combo_data[i as int].r2 == s.combo_data[i as int].r2
            &&& t.combo_data[i as int].c2 == s.combo_data[i as int].c2
            &&& forall|j: int|
                0 <= j < s.combo_data.len() && j != i ==> #[trigger] t.combo_data[j]
                    == s.combo_data[j]
            &&& t == (EditorView { combo_data: t.combo_data, ..s })
        }),
{
}

/// Picking a key as the result of leader `i` (row `600 + i`) stores its low byte as
/// that leader's result, keeps its sequence and every other leader.
pub proof fn lemma_leader_result_pick(s: EditorView, i: usize, code: u16)
    requires
        i < 100,
        i < s.leader_data.len(),
    ensures
        ({
            let (t, r) = spec_select(s, (600 + i) as usize, 0, code);
            &&& r == (KeySelection::LeaderResultEdited { index: i, code })
            &&& t.leader_data.len() == s.leader_data.len()
            &&& t.leader_data[i as int].result == (code % 256) as u8
            &&& t.leader_data[i as int].sequence == s.leader_data[i as int].sequence
            &&& t.leader_data[i as int].index == s.leader_data[i as int].index
            &&& t.leader_data[i as int].result_mod == s.leader_data[i as int].result_mod
            &&& forall|j: int|
                0 <= j < s.leader_data.len() && j != i ==> #[trigger] t.leader_data[j]
                    == s.leader_data[j]
            &&& t == (EditorView { leader_data: t.leader_data, ..s })
        }),
{
}

/// Picking a key for position `p` of leader `i` (row `500 + 10 i + p`) stores its low
/// byte at that position of that leader's sequence and changes nothing else.
pub proof fn lemma_leader_key_pick(s: EditorView, i: usize, p: usize, code: u16)
    requires
        i < 10,
        p < 10,
        i < s.leader_data.len(),
        p < s.leader_data[i as int].sequence.len(),
    ensures
        ({
            let (t, r) = spec_select(s, (500 + 10 * i + p) as usize, 0, code);
            let old_l = s.leader_data[i as int];
            let new_l = t.leader_data[i as int];
            &&& r == (KeySelection::LeaderKeyEdited { index: i, position: p, code })
            &&& t.leader_data.len() == s.leader_data.len()
            &&& new_l.sequence.len() == old_l.sequence.len()
            &&& new_l.sequence[p as int] == (code % 256) as u8
            &&& forall|q: int|
                0 <= q < old_l.sequence.len() && q != p ==> #[trigger] new_l.sequence[q]
                    == old_l.sequence[q]
            &&& new_l.result == old_l.result && new_l.index == old_l.index && new_l.result_mod
                == old_l.result_mod
            &&& forall|j: int|
                0 <= j < s.leader_data.len() && j != i ==> #[trigger] t.leader_data[j]
                    == s.leader_data[j]
            &&& t == (EditorView { leader_data: t.leader_data, ..s })
        }),
{
    assert((500 + 10 * i + p - 500) / 10 == i as int);
    assert((500 + 10 * i + p - 500) % 10 == p as int);
}

/// Picking a key for field `f` of key override `i` (row `900 + 10 i + f`, below 950)
/// stores its low byte as that override's trigger (`f == 0`) or result (otherwise)
/// and changes nothing else.
pub proof fn lemma_key_override_pick(s: EditorView, i: usize, f: usize, code: u16)
    requires
        f < 10,
        900 + 10 * i + f < 950,
        i < s.ko_data.len(),
        s.ko_data[i as int].len() == 4,
    ensures
        ({
            let (t, r) = spec_select(s, (900 + 10 * i + f) as usize, 0, code);
            let k: int = if f == 0 { 0 } else { 2 };
            &&& r == (KeySelection::KoEdited { index: i, trigger: f == 0, code })
            &&& t.ko_data.len() == s.ko_data.len()
            &&& t.ko_data[i as int].len() == 4
            &&& t.ko_data[i as int][k] == (code % 256) as u8
            &&& forall|j: int, m: int|
                0 <= j < s.ko_data.len() && 0 <= m < s.ko_data[j].len() && (j != i || m != k)
                    ==> #[trigger] t.ko_data[j][m] == s.ko_data[j][m]
            &&& t == (EditorView { ko_data: t.ko_data, ..s })
        }),
{
    assert((900 + 10 * i + f - 900) / 10 == i as int);
    assert((900 + 10 * i + f - 900) % 10 == f as int);
}

/// The picks that build a new entry: 951 and 950 take the key-override result and
/// trigger, 800..899 the new leader's result, 700..799 append to the new leader's
/// sequence (up to four keys), 400..499 the new combo's result, and 200..299 hand
/// the key to the macro being built without changing the state.
pub proof fn lemma_new_entry_picks(s: EditorView, row: usize, code: u16)
    ensures
        row == 951 ==> spec_select(s, row, 0, code) == (
            EditorView { ko_new_res_key: (code % 256) as u8, ko_new_res_set: true, ..s },
            KeySelection::KoResultPicked((code % 256) as u8),
        ),
        row == 950 ==> spec_select(s, row, 0, code) == (
            EditorView { ko_new_trig_key: (code % 256) as u8, ko_new_trig_set: true, ..s },
            KeySelection::KoTriggerPicked((code % 256) as u8),
        ),
        800 <= row < 900 ==> spec_select(s, row, 0, code) == (
            EditorView {
                leader_new_result: (code % 256) as u8,
                leader_new_result_set: true,
                ..s
            },
            KeySelection::LeaderResultPicked((code % 256) as u8),
        ),
        700 <= row < 800 && s.leader_new_seq.len() < 4 ==> spec_select(s, row, 0, code) == (
            EditorView { leader_new_seq: s.leader_new_seq.push((code % 256) as u8), ..s },
            KeySelection::LeaderKeyAppended((code % 256) as u8),
        ),
        700 <= row < 800 && s.leader_new_seq.len() >= 4 ==> spec_select(s, row, 0, code) == (
            s,
            KeySelection::Ignored,
        ),
        400 <= row < 500 ==> spec_select(s, row, 0, code) == (
            EditorView { combo_new_result: code, ..s },
            KeySelection::ComboResultPicked(code),
        ),
        200 <= row < 300 ==> spec_select(s, row, 0, code) == (s, KeySelection::MacroStep(code)),
{
}

} // verus!
