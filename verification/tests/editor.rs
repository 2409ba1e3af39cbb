use kesp_controller::editor::{EditorState, KeySelection};
use kesp_controller::entries::{ComboEntry, LeaderEntry};

fn state() -> EditorState {
    let mut s = EditorState::new();
    s.current_layer = 2;
    s.keymap = vec![vec![0x04, 0x05, 0x06], vec![0x07, 0x08]];
    s.td_data = vec![[1, 2, 3, 4]];
    s.combo_data = vec![ComboEntry { index: 0, r1: 0, c1: 0, r2: 0, c2: 1, result: 0x10 }];
    s.leader_data = vec![LeaderEntry { index: 0, sequence: vec![0x04, 0x05], result: 0x06, result_mod: 0 }];
    s.ko_data = vec![[0x04, 0x01, 0x05, 0x02], [0x06, 0x00, 0x07, 0x00]];
    s
}

#[test]
fn pick_for_keymap_cell_is_read_back() {
    let mut s = state();
    let r = s.apply_key_selection(1, 1, 0x1234);
    assert!(r == KeySelection::KeySet { layer: 2, row: 1, col: 1, code: 0x1234 });
    assert_eq!(s.get_key(1, 1), 0x1234);
    assert_eq!(s.get_key(0, 1), 0x05);
    assert_eq!(s.get_key(5, 5), 0);
}

#[test]
fn pick_outside_keymap_is_invalid() {
    let mut s = state();
    let r = s.apply_key_selection(1, 2, 0x29);
    assert!(r == KeySelection::InvalidPosition { row: 1, col: 2 });
    assert_eq!(s.keymap, vec![vec![0x04, 0x05, 0x06], vec![0x07, 0x08]]);
}

#[test]
fn pick_new_key_override_keys() {
    let mut s = state();
    assert!(s.apply_key_selection(951, 0, 0x0129) == KeySelection::KoResultPicked(0x29));
    assert_eq!(s.ko_new_res_key, 0x29);
    assert!(s.ko_new_res_set);
    assert!(s.apply_key_selection(950, 0, 0x2A) == KeySelection::KoTriggerPicked(0x2A));
    assert_eq!(s.ko_new_trig_key, 0x2A);
    assert!(s.ko_new_trig_set);
}

#[test]
fn pick_edits_key_override() {
    let mut s = state();
    assert!(s.apply_key_selection(910, 0, 0x33) == KeySelection::KoEdited { index: 1, trigger: true, code: 0x33 });
    assert_eq!(s.ko_data[1], [0x33, 0x00, 0x07, 0x00]);
    assert!(s.apply_key_selection(901, 0, 0x34) == KeySelection::KoEdited { index: 0, trigger: false, code: 0x34 });
    assert_eq!(s.ko_data[0], [0x04, 0x01, 0x34, 0x02]);
    assert!(s.apply_key_selection(920, 0, 0x35) == KeySelection::Ignored);
}

#[test]
fn pick_leader_keys() {
    let mut s = state();
    assert!(s.apply_key_selection(800, 0, 0x28) == KeySelection::LeaderResultPicked(0x28));
    assert!(s.leader_new_result_set);
    for k in 0..4u16 {
        assert!(s.apply_key_selection(700, 0, 0x04 + k) == KeySelection::LeaderKeyAppended(0x04 + k as u8));
    }
    assert!(s.apply_key_selection(700, 0, 0x10) == KeySelection::Ignored);
    assert_eq!(s.leader_new_seq, vec![0x04, 0x05, 0x06, 0x07]);
    assert!(s.apply_key_selection(600, 0, 0x2C) == KeySelection::LeaderResultEdited { index: 0, code: 0x2C });
    assert_eq!(s.leader_data[0].result, 0x2C);
    assert!(s.apply_key_selection(601, 0, 0x2C) == KeySelection::Ignored);
    assert!(s.apply_key_selection(501, 0, 0x1E) == KeySelection::LeaderKeyEdited { index: 0, position: 1, code: 0x1E });
    assert_eq!(s.leader_data[0].sequence, vec![0x04, 0x1E]);
    assert!(s.apply_key_selection(502, 0, 0x1E) == KeySelection::Ignored);
}

#[test]
fn pick_combo_macro_and_tap_dance() {
    let mut s = state();
    assert!(s.apply_key_selection(400, 0, 0x4005) == KeySelection::ComboResultPicked(0x4005));
    assert_eq!(s.combo_new_result, 0x4005);
    assert!(s.apply_key_selection(300, 0, 0x2B) == KeySelection::ComboResultEdited { index: 0, code: 0x2B });
    assert_eq!(s.combo_data[0].result, 0x2B);
    assert!(s.apply_key_selection(301, 0, 0x2B) == KeySelection::Ignored);
    assert!(s.apply_key_selection(250, 0, 0x04) == KeySelection::MacroStep(0x04));
    assert!(s.apply_key_selection(100, 3, 0x99) == KeySelection::TapDanceEdited { index: 0, slot: 3, code: 0x99 });
    assert_eq!(s.td_data[0], [1, 2, 3, 0x99]);
    assert!(s.apply_key_selection(100, 4, 0x99) == KeySelection::Ignored);
    assert_eq!(s.keymap, vec![vec![0x04, 0x05, 0x06], vec![0x07, 0x08]]);
}

#[test]
fn clear_keymap_keeps_the_rest() {
    let mut s = state();
    s.clear_keymap();
    assert!(s.keymap.is_empty());
    assert_eq!(s.current_layer, 2);
    assert_eq!(s.td_data.len(), 1);
}
