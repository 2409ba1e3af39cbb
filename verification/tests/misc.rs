use kesp_controller::advanced::{
    autoshift_enabled, combo_keys_picked, ko_mod_byte, leader_result, leader_sequence,
    tama_action, trilayer_payload, wpm_from_payload, TamaAction,
};
use kesp_controller::config::{
    combo_configs, config_total_keys, config_total_steps, export_layer_count, import_plan,
    import_summary, ko_configs, leader_configs, macro_config, macro_steps_text,
    tap_dance_configs, ComboConfig, ImportStep, KeyboardConfig, KoConfig, LeaderConfig,
    MacroConfig, TdConfig,
};
use kesp_controller::context::mod_idx_to_byte;
use kesp_controller::entries::{ComboEntry, LeaderEntry, MacroEntry, MacroStep};
use kesp_controller::key_selector::{
    leader_seq_next_count, lt_keycode, mt_keycode, selector_target, td_slot_codes,
    SelectorTarget,
};
use kesp_controller::macros::{
    delay_step, delay_units, macro_steps_display, next_macro_slot, shortcut_steps,
};
use kesp_controller::models::{heat_count, keycap_code, layer_active_flags, selection_flags};
use kesp_controller::ota::{
    ack_complete, ack_verdict, find_bytes, is_ready_line, ota_chunk, ota_chunk_count,
    ota_command, ota_sent_kb, OtaAck,
};
use kesp_controller::query::{tag_to_binary_cmd, BinaryQuery};
use kesp_controller::stats::parse_tama_stats;
use kesp_controller::tools::{build_nvs_mask, matrix_event};

#[test]
fn tama_stats_fields() {
    let mut p = vec![0u8; 22];
    p[0] = 1;
    p[2] = 0x10; // hunger
    p[4] = 0x20; // happiness
    p[6] = 0x30; // energy
    p[8] = 0x40; // health
    p[10] = 0x05; // level
    p[12] = 0x34;
    p[13] = 0x12; // xp
    p[14..18].copy_from_slice(&100_000u32.to_le_bytes());
    p[18..22].copy_from_slice(&321u32.to_le_bytes());
    let t = parse_tama_stats(&p);
    assert!(t.enabled);
    assert_eq!(t.hunger, 0x10);
    assert_eq!(t.happiness, 0x20);
    assert_eq!(t.energy, 0x30);
    assert_eq!(t.health, 0x40);
    assert_eq!(t.level, 5);
    assert_eq!(t.xp, 0x1234);
    assert_eq!(t.total_keys, 100_000);
    assert_eq!(t.max_kpm, 321);
    p[0] = 0;
    assert!(!parse_tama_stats(&p).enabled);
}

#[test]
fn modifier_index_bytes() {
    let expected = [0x00, 0x01, 0x02, 0x04, 0x08, 0x10, 0x20, 0x40, 0x80, 0x00];
    for (i, e) in expected.iter().enumerate() {
        assert_eq!(mod_idx_to_byte(i as i32), *e);
    }
    assert_eq!(mod_idx_to_byte(-1), 0);
}

#[test]
fn nvs_mask_bits() {
    assert_eq!(build_nvs_mask(false, false, false, false, false, false), 0);
    assert_eq!(build_nvs_mask(true, false, true, false, false, true), 0x25);
    assert_eq!(build_nvs_mask(true, true, true, true, true, true), 0x3F);
    assert_eq!(matrix_event(&[1, 2, 1, 9]), Some((1, 2, 1)));
    assert_eq!(matrix_event(&[1, 2]), None);
}

#[test]
fn query_tags() {
    assert_eq!(tag_to_binary_cmd("td"), Some(BinaryQuery::TdList));
    assert_eq!(tag_to_binary_cmd("keystats"), Some(BinaryQuery::KeystatsBin));
    assert_eq!(tag_to_binary_cmd("features"), Some(BinaryQuery::Features));
    assert_eq!(tag_to_binary_cmd("TD"), None);
    assert_eq!(tag_to_binary_cmd(""), None);
}

#[test]
fn mod_tap_and_layer_tap_codes() {
    // Left Shift + A
    assert_eq!(mt_keycode(1, 0), 0x5204);
    // Ctrl + 1, GUI + Space
    assert_eq!(mt_keycode(0, 26), 0x511E);
    assert_eq!(mt_keycode(3, 36), 0x582C);
    // unknown indices fall back to Shift / A
    assert_eq!(mt_keycode(9, 99), 0x5204);
    assert_eq!(lt_keycode(1, 0), 0x412C);
    assert_eq!(lt_keycode(2, 5), 0x4204);
    assert_eq!(lt_keycode(17, 4), 0x412B);
    assert_eq!(lt_keycode(-1, 42), 0x4F2C);
}

#[test]
fn selector_targets_and_helpers() {
    assert_eq!(selector_target("keymap"), SelectorTarget::Keymap);
    assert_eq!(selector_target("combo-key2"), SelectorTarget::ComboKey2);
    assert_eq!(selector_target("macro-step"), SelectorTarget::MacroStep);
    assert_eq!(selector_target("whatever"), SelectorTarget::Keymap);
    assert_eq!(td_slot_codes(&vec![1, 2, 3, 4], 2, 0x99), [1, 2, 0x99, 4]);
    assert_eq!(td_slot_codes(&vec![7], 3, 5), [7, 0, 0, 5]);
    assert_eq!(leader_seq_next_count(0), 1);
    assert_eq!(leader_seq_next_count(4), 4);
}

#[test]
fn macro_helpers() {
    assert_eq!(delay_units(100), 10);
    assert_eq!(delay_units(2550), 24); // the low byte of 2550 is 246
    assert_eq!(delay_step(50), (0xFF, 5));
    assert_eq!(shortcut_steps("ctrl+c"), Some(vec![(0xE0, 0), (0x06, 0)]));
    assert_eq!(shortcut_steps("alt+f4"), Some(vec![(0xE2, 0), (0x3D, 0)]));
    assert_eq!(shortcut_steps("ctrl+q"), None);
    assert_eq!(next_macro_slot(&vec![0, 3, 1], 0), 4);
    assert_eq!(next_macro_slot(&vec![0, 3, 1], 7), 7);
    assert_eq!(next_macro_slot(&vec![], 0), 0);
    let step = MacroStep { keycode: 0xFF, modifier: 12 };
    assert!(step.is_delay());
    assert_eq!(step.delay_ms(), 120);
}

#[test]
fn advanced_helpers() {
    assert_eq!(ko_mod_byte(true, false, true), 0x05);
    assert_eq!(ko_mod_byte(false, true, false), 0x02);
    assert_eq!(leader_sequence(2, [0x104, 0x05, 0x06, 0x07]), vec![0x04, 0x05]);
    assert_eq!(leader_sequence(9, [1, 2, 3, 4]), vec![1, 2, 3, 4]);
    assert_eq!(leader_result(0x2C, 2), (0x2C, 0x02));
    assert_eq!(tama_action("meds"), Some(TamaAction::Medicine));
    assert_eq!(tama_action("dance"), None);
    assert!(autoshift_enabled(&[1]));
    assert!(!autoshift_enabled(&[0, 1]));
    assert!(!autoshift_enabled(&[]));
    assert_eq!(wpm_from_payload(&[0x2C, 0x01]), 300);
    assert_eq!(wpm_from_payload(&[0x2C]), 0);
    assert_eq!(trilayer_payload(1, 2, 259), vec![1, 2, 3]);
    assert!(combo_keys_picked("R0C1", "R2C3"));
    assert!(!combo_keys_picked("Pick...", "R2C3"));
}

#[test]
fn config_records() {
    let td = tap_dance_configs(&vec![[0, 0, 0, 0], [4, 0, 0, 0], [0, 0, 0, 0], [0, 0, 0, 5]]);
    assert_eq!(td.len(), 2);
    assert_eq!((td[0].index, td[0].actions), (1, [4, 0, 0, 0]));
    assert_eq!((td[1].index, td[1].actions), (3, [0, 0, 0, 5]));
    let combos = combo_configs(&vec![ComboEntry { index: 2, r1: 1, c1: 2, r2: 3, c2: 4, result: 0x29 }]);
    assert_eq!(combos[0].index, 2);
    assert_eq!(combos[0].c2, 4);
    assert_eq!(combos[0].result, 0x29);
    let kos = ko_configs(&vec![[1, 2, 3, 4]]);
    assert!(kos[0] == KoConfig { trigger_key: 1, trigger_mod: 2, result_key: 3, result_mod: 4 });
    let leaders = leader_configs(&vec![LeaderEntry { index: 1, sequence: vec![4, 5], result: 6, result_mod: 2 }]);
    assert_eq!(leaders[0].sequence, vec![4, 5]);
    assert_eq!(leaders[0].result_mod, 2);
    assert_eq!(macro_steps_text(&vec![]), "");
    assert_eq!(macro_steps_text(&vec![(0xE0, 0), (0x06, 0x1F)]), "E0:00,06:1F");
    let m = macro_config(&MacroEntry {
        slot: 3,
        name: "copy".to_string(),
        steps: vec![MacroStep { keycode: 0xFF, modifier: 10 }, MacroStep { keycode: 0x0A, modifier: 0 }],
    });
    assert_eq!(m.slot, 3);
    assert_eq!(m.name, "copy");
    assert_eq!(m.steps, "FF:0A,0A:00");
}

#[test]
fn config_counts() {
    let mut c = KeyboardConfig {
        version: 1,
        layer_names: vec![],
        keymaps: vec![],
        tap_dances: vec![],
        combos: vec![],
        key_overrides: vec![],
        leaders: vec![],
        macros: vec![],
    };
    assert_eq!(config_total_steps(&c), 1);
    c.layer_names = vec!["a".into(), "b".into()];
    c.keymaps = vec![vec![vec![1, 2, 3], vec![4]], vec![vec![5, 6]]];
    assert_eq!(config_total_steps(&c), 4);
    assert_eq!(config_total_keys(&c.keymaps), 6);
}

#[test]
fn model_lookups() {
    let data = vec![vec![1u32, 2], vec![3]];
    assert_eq!(heat_count(&data, 0, 1), 2);
    assert_eq!(heat_count(&data, 1, 1), 0);
    assert_eq!(heat_count(&data, 4, 0), 0);
    let km = vec![vec![0x04u16, 0x05]];
    assert_eq!(keycap_code(&km, 0, 1), Some(0x05));
    assert_eq!(keycap_code(&km, 1, 0), None);
    assert_eq!(layer_active_flags(&vec![0, 1, 2], 1), vec![false, true, false]);
    assert_eq!(selection_flags(3, 2), vec![false, false, true]);
}

#[test]
fn ota_decisions() {
    assert!(find_bytes(b"xxOTA_OKyy", b"OTA_OK"));
    assert!(!find_bytes(b"OTA_O", b"OTA_OK"));
    assert!(find_bytes(b"abc", b""));
    assert!(ack_complete(b"\r\nOTA_OK\r\n"));
    assert!(!ack_complete(b"OTA_"));
    assert_eq!(ack_verdict(b"OTA_OK"), OtaAck::Next);
    assert_eq!(ack_verdict(b"OTA_DONE"), OtaAck::Done);
    assert_eq!(ack_verdict(b"OTA_DONE OTA_FAIL"), OtaAck::Fail);
    assert_eq!(ack_verdict(b""), OtaAck::Next);
    assert!(is_ready_line(b"OTA_READY\n"));
    assert!(!is_ready_line(b"READY\n"));
    assert_eq!(ota_chunk_count(0), 0);
    assert_eq!(ota_chunk_count(4096), 1);
    assert_eq!(ota_chunk_count(4097), 2);
    let fw: Vec<u8> = (0..5000u32).map(|i| i as u8).collect();
    assert_eq!(ota_chunk(&fw, 0), fw[..4096].to_vec());
    assert_eq!(ota_chunk(&fw, 1), fw[4096..].to_vec());
    assert_eq!(ota_sent_kb(0, 5000), 4);
    assert_eq!(ota_sent_kb(1, 5000), 4);
    assert_eq!(ota_command(0), "OTA 0");
    assert_eq!(ota_command(1048576), "OTA 1048576");
}

#[test]
fn macro_display_text() {
    assert_eq!(macro_steps_display(&vec![]), "");
    assert_eq!(macro_steps_display(&vec![(0xE0, 0), (0xFF, 25), (0x06, 0)]), "D(E0) T(250) D(06)");
}

#[test]
fn import_plan_and_summary() {
    let c = KeyboardConfig {
        version: 1,
        layer_names: vec!["base".into()],
        keymaps: vec![vec![vec![4, 5]], vec![vec![6]]],
        tap_dances: vec![TdConfig { index: 3, actions: [1, 0, 0, 0] }],
        combos: vec![ComboConfig { index: 2, r1: 0, c1: 1, r2: 0, c2: 2, result: 0x4129 }],
        key_overrides: vec![KoConfig { trigger_key: 4, trigger_mod: 1, result_key: 5, result_mod: 2 }],
        leaders: vec![LeaderConfig { index: 7, sequence: vec![4], result: 5, result_mod: 0 }],
        macros: vec![MacroConfig { slot: 9, name: "m".into(), steps: "04:00".into() }],
    };
    let plan = import_plan(&c);
    assert_eq!(plan.len(), 8);
    assert!(matches!(plan[0], ImportStep::LayerName { layer: 0, source: 0 }));
    assert!(matches!(plan[2], ImportStep::Keymap { layer: 1, source: 1 }));
    assert!(matches!(plan[3], ImportStep::TapDance { index: 3, actions: [1, 0, 0, 0] }));
    assert!(matches!(plan[4], ImportStep::Combo { index: 2, c2: 2, result: 0x29, .. }));
    assert!(matches!(plan[5], ImportStep::KeyOverride { index: 0, trigger_key: 4, result_mod: 2, .. }));
    assert!(matches!(plan[6], ImportStep::Leader { index: 7, source: 0 }));
    assert!(matches!(plan[7], ImportStep::Macro { slot: 9, source: 0 }));
    assert_eq!(
        import_summary(0, &c, config_total_keys(&c.keymaps)),
        "Imported: 1 layers, 3 keys, 1 TD, 1 combos, 1 KO, 1 leaders, 1 macros"
    );
    assert_eq!(import_summary(12, &c, 3), "Import done with 12 errors (check stderr)");
    assert_eq!(export_layer_count(0), 1);
    assert_eq!(export_layer_count(4), 4);
}

#[test]
fn position_labels() {
    assert_eq!(kesp_controller::key_selector::position_label(0, 12), "R0C12");
    assert_eq!(kesp_controller::key_selector::position_label(3, 5), "R3C5");
}
