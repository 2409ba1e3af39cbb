use kesp_controller::keys::{group_members, key_catalog, KeyCategory, KeyGroup, KeyLabel};

fn text(l: &KeyLabel) -> Option<&str> {
    match l {
        KeyLabel::Text(s) => Some(s.as_str()),
        KeyLabel::Hid(_) => None,
    }
}

#[test]
fn catalog_order_and_contents() {
    let keys = key_catalog();
    assert_eq!(keys.len(), 1 + 26 + 10 + 5 + 12 + 12 + 13 + 8 + 1 + 17 + 12 + 3 + 6 + 48 + 6);
    assert_eq!(keys[0].code, 0);
    assert_eq!(text(&keys[0].label), Some("None"));
    assert_eq!(keys[1].code, 0x04);
    assert!(keys[1].category == KeyCategory::Letter);
    assert!(matches!(keys[1].label, KeyLabel::Hid(0x04)));
    let caps = keys.iter().find(|k| k.code == 0x39).unwrap();
    assert_eq!(text(&caps.label), Some("Caps Lock"));
    assert!(caps.category == KeyCategory::Control);
    let td3 = keys.iter().find(|k| k.code == 0x6300).unwrap();
    assert_eq!(text(&td3.label), Some("TD 3"));
    let m9 = keys.iter().find(|k| k.code == 0x1E00).unwrap();
    assert_eq!(text(&m9.label), Some("M9"));
    let osl2 = keys.iter().find(|k| k.code == 0x3102).unwrap();
    assert_eq!(text(&osl2.label), Some("OSL 2"));
    let mo0 = keys.iter().find(|k| k.code == 0x0100).unwrap();
    assert_eq!(text(&mo0.label), Some("MO 0"));
    let to9 = keys.iter().find(|k| k.code == 0x1400).unwrap();
    assert_eq!(text(&to9.label), Some("TO 9"));
    let last = keys.last().unwrap();
    assert_eq!(last.code, 0x3C00);
    assert_eq!(text(&last.label), Some("AS Toggle"));
}

#[test]
fn groups_collect_their_categories() {
    let keys = key_catalog();
    let all = vec![true; keys.len()];
    let nav = group_members(&keys, &all, KeyGroup::Navigation);
    // 5 control keys, Caps Lock and 13 navigation keys
    assert_eq!(nav.len(), 19);
    let special = group_members(&keys, &all, KeyGroup::Special);
    // None, 6 special, 6 Bluetooth, 3 media
    assert_eq!(special.len(), 16);
    assert_eq!(special[0], 0);
    let tdm = group_members(&keys, &all, KeyGroup::TapDanceMacro);
    assert_eq!(tdm.len(), 18);
    let mut hits = vec![false; keys.len()];
    hits[1] = true;
    hits[2] = true;
    let letters = group_members(&keys, &hits, KeyGroup::Letters);
    assert_eq!(letters, vec![1, 2]);
}
