use kesp_controller::bootloader::xor_checksum;
use kesp_controller::key_selector::{parse_hex_keycode, parse_hex_u16};
use kesp_controller::keys::{
    category_name, entry_matches, group_members, key_catalog, search_hits, KeyCategory,
    KeyEntry, KeyGroup, KeyLabel,
};
use kesp_controller::macros::MacroDraft;
use kesp_controller::ota::{
    is_ready_line, ota_next, ota_start, OtaAck, OtaEvent, OtaStep, OTA_READY_LINES,
};
use kesp_controller::slip::{extract_slip_frames, slip_encode};
use kesp_controller::text::{chars_of, contains_chars, str_eq};

fn run(n: usize, events: &[OtaEvent]) -> OtaStep {
    let mut step = ota_start();
    for ev in events {
        step = ota_next(step, *ev, n);
    }
    step
}

#[test]
fn ota_good_run_sends_chunks_in_order() {
    let n = 3;
    let mut step = ota_start();
    assert_eq!(step, OtaStep::AwaitReady { lines: 0 });
    step = ota_next(step, OtaEvent::Line { ready: true }, n);
    for i in 0..n {
        assert_eq!(step, OtaStep::SendChunk { index: i });
        step = ota_next(step, OtaEvent::Written, n);
        assert_eq!(step, OtaStep::AwaitAck { index: i });
        step = ota_next(step, OtaEvent::Ack(OtaAck::Next), n);
    }
    assert_eq!(step, OtaStep::Complete);
}

#[test]
fn ota_empty_image_completes_after_ready() {
    assert_eq!(run(0, &[OtaEvent::Line { ready: true }]), OtaStep::Complete);
}

#[test]
fn ota_gives_up_after_twenty_lines() {
    let mut events = vec![OtaEvent::Line { ready: false }; 10];
    events.extend(vec![OtaEvent::LineUnreadable; 9]);
    assert_eq!(run(2, &events), OtaStep::AwaitReady { lines: 19 });
    events.push(OtaEvent::Line { ready: false });
    assert_eq!(events.len(), OTA_READY_LINES);
    assert_eq!(run(2, &events), OtaStep::Failed);
    let mut late = vec![OtaEvent::LineUnreadable; 19];
    late.push(OtaEvent::Line { ready: true });
    assert_eq!(run(2, &late), OtaStep::SendChunk { index: 0 });
}

#[test]
fn ota_errors_and_early_end() {
    let ready = OtaEvent::Line { ready: true };
    assert_eq!(run(2, &[ready, OtaEvent::WriteFailed]), OtaStep::Failed);
    assert_eq!(
        run(2, &[ready, OtaEvent::Written, OtaEvent::Ack(OtaAck::Fail)]),
        OtaStep::Failed
    );
    assert_eq!(
        run(5, &[ready, OtaEvent::Written, OtaEvent::Ack(OtaAck::Done)]),
        OtaStep::Complete
    );
    assert_eq!(
        run(2, &[ready, OtaEvent::Written, OtaEvent::AckTimeout]),
        OtaStep::SendChunk { index: 1 }
    );
    assert_eq!(
        run(1, &[ready, OtaEvent::Written, OtaEvent::AckTimeout]),
        OtaStep::Complete
    );
    assert_eq!(ota_next(OtaStep::Failed, ready, 3), OtaStep::Failed);
    assert_eq!(ota_next(OtaStep::Complete, OtaEvent::WriteFailed, 3), OtaStep::Complete);
    assert_eq!(
        ota_next(OtaStep::SendChunk { index: 1 }, OtaEvent::AckTimeout, 3),
        OtaStep::SendChunk { index: 1 }
    );
}

#[test]
fn ready_line_must_be_text() {
    assert!(is_ready_line(b"boot OTA_READY\r\n"));
    assert!(!is_ready_line(b"\xffOTA_READY\n"));
    assert!(!is_ready_line(b"OTA_REA\n"));
}

#[test]
fn hex_keycode_parsing() {
    assert_eq!(parse_hex_keycode("  1A2b \n"), Some(0x1A2B));
    assert_eq!(parse_hex_keycode("\t04"), Some(0x04));
    assert_eq!(parse_hex_keycode("+FF"), Some(0xFF));
    assert_eq!(parse_hex_keycode("0000FFFF"), Some(0xFFFF));
    assert_eq!(parse_hex_keycode("10000"), None);
    assert_eq!(parse_hex_keycode("+"), None);
    assert_eq!(parse_hex_keycode("-1"), None);
    assert_eq!(parse_hex_keycode(""), None);
    assert_eq!(parse_hex_keycode("   "), None);
    assert_eq!(parse_hex_keycode("0x10"), None);
    assert_eq!(parse_hex_keycode("1 2"), None);
    assert_eq!(parse_hex_keycode("\u{3000}7f\u{a0}"), Some(0x7F));
    assert_eq!(parse_hex_u16(" 1"), None);
    assert_eq!(parse_hex_u16("++1"), None);
}

#[test]
fn key_search_filter() {
    assert!(entry_matches("A", KeyCategory::Letter, ""));
    assert!(entry_matches("Space", KeyCategory::Control, "spa"));
    assert!(entry_matches("Space", KeyCategory::Control, "CONT"));
    assert!(entry_matches("TD 3", KeyCategory::TapDance, "dance"));
    assert!(!entry_matches("BT Next", KeyCategory::Bluetooth, "tap"));
    assert!(!entry_matches("F1", KeyCategory::Function, "f13"));
    assert_eq!(category_name(KeyCategory::TapDance), "Tap Dance");
    assert_eq!(category_name(KeyCategory::Keypad), "Keypad");
}

#[test]
fn search_hits_feed_the_tabs() {
    let entries = vec![
        KeyEntry { code: 0x04, category: KeyCategory::Letter, label: KeyLabel::Hid(0x04) },
        KeyEntry { code: 0x2C, category: KeyCategory::Control, label: KeyLabel::Hid(0x2C) },
        KeyEntry { code: 0x4F, category: KeyCategory::Navigation, label: KeyLabel::Hid(0x4F) },
    ];
    let names = vec!["A".to_string(), "Space".to_string(), "Right".to_string()];
    let hits = search_hits(&entries, &names, "RIG");
    assert_eq!(hits, vec![false, false, true]);
    assert_eq!(group_members(&entries, &hits, KeyGroup::Navigation), vec![2]);
    let all = search_hits(&entries, &names, "");
    assert_eq!(group_members(&entries, &all, KeyGroup::Navigation), vec![1, 2]);
    let catalog = key_catalog();
    assert!(!catalog.is_empty());
}

#[test]
fn text_helpers() {
    assert!(str_eq("feed", "feed"));
    assert!(!str_eq("feed", "fee"));
    assert_eq!(chars_of("añb"), vec!['a', 'ñ', 'b']);
    assert!(contains_chars(&chars_of("layer lock"), &chars_of("r lo")));
    assert!(!contains_chars(&chars_of("lay"), &chars_of("layer")));
}

#[test]
fn checksum_of_pieces() {
    let a = [0x12u8, 0x34, 0x56];
    let b = [0xFFu8, 0x00, 0xC0, 0x07];
    let ab: Vec<u8> = a.iter().chain(b.iter()).copied().collect();
    let ba: Vec<u8> = b.iter().chain(a.iter()).copied().collect();
    assert_eq!(xor_checksum(&ab), xor_checksum(&a) ^ xor_checksum(&b) ^ 0xEF);
    assert_eq!(xor_checksum(&ab), xor_checksum(&ba));
    assert_eq!(xor_checksum(&[]), 0xEF);
}

#[test]
fn frames_stand_between_delimiters() {
    let raw = [0x01u8, 0xC0, 0x11, 0x22, 0xC0, 0x33, 0xC0, 0xC0, 0x44, 0xC0, 0xC0, 0x55];
    assert_eq!(extract_slip_frames(&raw), vec![vec![0x11, 0x22], vec![0x44]]);
    let enc = slip_encode(&[0xC0, 0x01, 0xDB]);
    assert_eq!(extract_slip_frames(&enc), vec![enc[1..enc.len() - 1].to_vec()]);
}

#[test]
fn macro_draft_editing() {
    let mut d = MacroDraft::new();
    assert!(d.add_shortcut("ctrl+c"));
    d.add_delay(250);
    assert!(!d.add_shortcut("ctrl+q"));
    assert_eq!(d.steps, vec![(0xE0, 0), (0x06, 0), (0xFF, 25)]);
    d.remove_last();
    assert_eq!(d.steps, vec![(0xE0, 0), (0x06, 0)]);
    d.clear();
    d.remove_last();
    assert!(d.steps.is_empty());
    d.add_delay(300);
    assert_eq!(d.steps, vec![(0xFF, 4)]);
}
