//! The catalogue of keys offered by the key selector, and its category groups.
use vstd::prelude::*;
use crate::text::{chars_of, contains_chars, lowercase, occurs_in, push_char, spec_lowercase};

verus! {

/// Category of a selectable key.
#[derive(Clone, Copy, Debug, PartialEq, Eq, Structural)]
pub enum KeyCategory {
    Letter,
    Number,
    Control,
    Symbol,
    Function,
    Navigation,
    Modifier,
    Keypad,
    Media,
    Bluetooth,
    TapDance,
    Macro,
    Layer,
    Special,
}

/// How a key is labelled: by its HID usage (named with the active keyboard layout),
/// or by a fixed text.
pub enum KeyLabel {
    Hid(u8),
    Text(String),
}

/// A label as plain values.
pub enum LabelView {
    Hid(u8),
    Text(Seq<char>),
}

/// A selectable key.
pub struct KeyEntry {
    pub code: u16,
    pub category: KeyCategory,
    pub label: KeyLabel,
}

pub open spec fn label_view(l: KeyLabel) -> LabelView {
    match l {
        KeyLabel::Hid(h) => LabelView::Hid(h),
        KeyLabel::Text(s) => LabelView::Text(s@),
    }
}

/// An entry as plain values.
pub open spec fn entry_view(e: KeyEntry) -> (u16, KeyCategory, LabelView) {
    (e.code, e.category, label_view(e.label))
}

/// The HID keys `lo..=hi` of one category.
pub open spec fn hid_range(lo: u16, hi: u16, cat: KeyCategory) -> Seq<(u16, KeyCategory, LabelView)> {
    Seq::new(
        (hi - lo + 1) as nat,
        |i: int| ((lo + i) as u16, cat, LabelView::Hid((lo + i) as u8)),
    )
}

/// A key with a fixed text label.
pub open spec fn text_key(code: u16, cat: KeyCategory, name: Seq<char>) -> (u16, KeyCategory, LabelView) {
    (code, cat, LabelView::Text(name))
}

/// The decimal digit of a value below 10.
pub open spec fn digit_char(i: int) -> char {
    (('0' as int) + i) as char
}

/// Ten (or `count`) numbered keys `prefix i` with codes `code_of(i)`.
pub open spec fn numbered_keys(
    count: nat,
    cat: KeyCategory,
    prefix: Seq<char>,
    base: int,
    step: int,
) -> Seq<(u16, KeyCategory, LabelView)> {
    Seq::new(
        count,
        |i: int| ((base + step * i) as u16, cat, LabelView::Text(prefix.push(digit_char(i)))),
    )
}

/// The Bluetooth keys.
pub open spec fn bluetooth_keys() -> Seq<(u16, KeyCategory, LabelView)> {
    seq![
        text_key(0x2900, KeyCategory::Bluetooth, "BT Next"@),
        text_key(0x2A00, KeyCategory::Bluetooth, "BT Prev"@),
        text_key(0x2B00, KeyCategory::Bluetooth, "BT Pair"@),
        text_key(0x2C00, KeyCategory::Bluetooth, "BT Disc"@),
        text_key(0x2E00, KeyCategory::Bluetooth, "USB/BT"@),
        text_key(0x2F00, KeyCategory::Bluetooth, "BT On/Off"@),
    ]
}

/// The special function keys.
pub open spec fn special_keys() -> Seq<(u16, KeyCategory, LabelView)> {
    seq![
        text_key(0x3200, KeyCategory::Special, "Caps Word"@),
        text_key(0x3300, KeyCategory::Special, "Repeat"@),
        text_key(0x3400, KeyCategory::Special, "Leader"@),
        text_key(0x3900, KeyCategory::Special, "GEsc"@),
        text_key(0x3A00, KeyCategory::Special, "Layer Lock"@),
        text_key(0x3C00, KeyCategory::Special, "AS Toggle"@),
    ]
}

/// The plain HID keys, with Caps Lock after the modifiers.
pub open spec fn hid_keys() -> Seq<(u16, KeyCategory, LabelView)> {
    hid_range(0x04, 0x1D, KeyCategory::Letter) + hid_range(0x1E, 0x27, KeyCategory::Number)
        + hid_range(0x28, 0x2C, KeyCategory::Control) + hid_range(0x2D, 0x38, KeyCategory::Symbol)
        + hid_range(0x3A, 0x45, KeyCategory::Function) + hid_range(
        0x46,
        0x52,
        KeyCategory::Navigation,
    ) + hid_range(0xE0, 0xE7, KeyCategory::Modifier) + seq![
        text_key(0x39, KeyCategory::Control, "Caps Lock"@),
    ] + hid_range(0x53, 0x63, KeyCategory::Keypad) + hid_range(0x68, 0x73, KeyCategory::Function)
        + hid_range(0x7F, 0x81, KeyCategory::Media)
}

/// The numbered keys: tap dances, macros, one-shot, momentary and to-layer keys.
pub open spec fn numbered_groups() -> Seq<(u16, KeyCategory, LabelView)> {
    numbered_keys(8, KeyCategory::TapDance, "TD "@, 0x6000, 0x100) + numbered_keys(
        10,
        KeyCategory::Macro,
        "M"@,
        0x1500,
        0x100,
    ) + numbered_keys(10, KeyCategory::Layer, "OSL "@, 0x3100, 1) + numbered_keys(
        10,
        KeyCategory::Layer,
        "MO "@,
        0x100,
        0x100,
    ) + numbered_keys(10, KeyCategory::Layer, "TO "@, 0xB00, 0x100)
}

/// The catalogue, in the order the selector lists it: "None" first.
pub open spec fn spec_key_catalog() -> Seq<(u16, KeyCategory, LabelView)> {
    seq![text_key(0, KeyCategory::Special, "None"@)] + hid_keys() + bluetooth_keys()
        + numbered_groups() + special_keys()
}

/// The views of a list of entries.
pub open spec fn entries_view(v: Seq<KeyEntry>) -> Seq<(u16, KeyCategory, LabelView)> {
    v.map_values(|e: KeyEntry| entry_view(e))
}

fn push_entry(v: &mut Vec<KeyEntry>, e: KeyEntry)
    requires
        old(v)@.len() < usize::MAX,
    ensures
        entries_view(final(v)@) == entries_view(old(v)@).push(entry_view(e)),
        final(v)@.len() == old(v)@.len() + 1,
{
    v.push(e);
    proof {
        assert(entries_view(final(v)@) =~= entries_view(old(v)@).push(entry_view(e)));
    }
}

fn push_text(v: &mut Vec<KeyEntry>, code: u16, cat: KeyCategory, name: &str)
    requires
        old(v)@.len() < usize::MAX,
    ensures
        entries_view(final(v)@) == entries_view(old(v)@).push(text_key(code, cat, name@)),
        final(v)@.len() == old(v)@.len() + 1,
{
    let label = KeyLabel::Text(String::from_str(name));
    push_entry(v, KeyEntry { code, category: cat, label });
}

fn push_hid_range(v: &mut Vec<KeyEntry>, lo: u16, hi: u16, cat: KeyCategory)
    requires
        lo <= hi < 256,
        old(v)@.len() + 256 < usize::MAX,
    ensures
        entries_view(final(v)@) == entries_view(old(v)@) + hid_range(lo, hi, cat),
        final(v)@.len() == old(v)@.len() + (hi - lo + 1),
{
    let ghost start = entries_view(v@);
    let mut code = lo;
    while code <= hi
        invariant
            lo <= code <= hi + 1,
            hi < 256,
            v@.len() == old(v)@.len() + (code - lo),
            old(v)@.len() + 256 < usize::MAX,
            start == entries_view(old(v)@),
            entries_view(v@) =~= start + hid_range(lo, hi, cat).take(code - lo),
        decreases hi + 1 - code,
    {
        push_entry(v, KeyEntry { code, category: cat, label: KeyLabel::Hid(code as u8) });
        code = code + 1;
    }
    proof {
        assert(hid_range(lo, hi, cat).take(hi + 1 - lo) =~= hid_range(lo, hi, cat));
    }
}

fn push_numbered(
    v: &mut Vec<KeyEntry>,
    count: u16,
    cat: KeyCategory,
    prefix: &str,
    base: u16,
    step: u16,
)
    requires
        count <= 10,
        base + step * 9 <= u16::MAX,
        old(v)@.len() + 16 < usize::MAX,
    ensures
        entries_view(final(v)@) == entries_view(old(v)@) + numbered_keys(
            count as nat,
            cat,
            prefix@,
            base as int,
            step as int,
        ),
        final(v)@.len() == old(v)@.len() + count,
{
    let ghost start = entries_view(v@);
    let ghost all = numbered_keys(count as nat, cat, prefix@, base as int, step as int);
    let mut i: u16 = 0;
    while i < count
        invariant
            i <= count <= 10,
            base + step * 9 <= u16::MAX,
            v@.len() == old(v)@.len() + i,
            old(v)@.len() + 16 < usize::MAX,
            start == entries_view(old(v)@),
            all == numbered_keys(count as nat, cat, prefix@, base as int, step as int),
            entries_view(v@) =~= start + all.take(i as int),
        decreases count - i,
    {
        let mut name = String::from_str(prefix);
        push_char(&mut name, ((0x30u8 + i as u8) as char));
        assert(step * i <= step * 9) by (nonlinear_arith)
            requires
                i <= 9,
        ;
        let code = base + step * i;
        push_entry(v, KeyEntry { code, category: cat, label: KeyLabel::Text(name) });
        proof {
            assert(all.take(i + 1) =~= all.take(i as int).push(all[i as int]));
        }
        i = i + 1;
    }
    proof {
        assert(all.take(count as int) =~= all);
    }
}

fn push_hid_keys(v: &mut Vec<KeyEntry>)
    requires
        old(v)@.len() < 16,
    ensures
        entries_view(final(v)@) == entries_view(old(v)@) + hid_keys(),
        final(v)@.len() == old(v)@.len() + hid_keys().len(),
{
    let ghost s0 = entries_view(v@);
    push_hid_range(v, 0x04, 0x1D, KeyCategory::Letter);
    push_hid_range(v, 0x1E, 0x27, KeyCategory::Number);
    push_hid_range(v, 0x28, 0x2C, KeyCategory::Control);
    push_hid_range(v, 0x2D, 0x38, KeyCategory::Symbol);
    push_hid_range(v, 0x3A, 0x45, KeyCategory::Function);
    push_hid_range(v, 0x46, 0x52, KeyCategory::Navigation);
    push_hid_range(v, 0xE0, 0xE7, KeyCategory::Modifier);
    let ghost s1 = entries_view(v@);
    push_text(v, 0x39, KeyCategory::Control, "Caps Lock");
    proof {
        assert(entries_view(v@) =~= s1 + seq![text_key(0x39, KeyCategory::Control, "Caps Lock"@)]);
    }
    push_hid_range(v, 0x53, 0x63, KeyCategory::Keypad);
    push_hid_range(v, 0x68, 0x73, KeyCategory::Function);
    push_hid_range(v, 0x7F, 0x81, KeyCategory::Media);
    proof {
        assert(entries_view(v@) =~= s0 + hid_keys());
    }
}

fn push_bluetooth_keys(v: &mut Vec<KeyEntry>)
    requires
        old(v)@.len() < 1024,
    ensures
        entries_view(final(v)@) == entries_view(old(v)@) + bluetooth_keys(),
        final(v)@.len() == old(v)@.len() + 6,
{
    let ghost s0 = entries_view(v@);
    push_text(v, 0x2900, KeyCategory::Bluetooth, "BT Next");
    push_text(v, 0x2A00, KeyCategory::Bluetooth, "BT Prev");
    push_text(v, 0x2B00, KeyCategory::Bluetooth, "BT Pair");
    push_text(v, 0x2C00, KeyCategory::Bluetooth, "BT Disc");
    push_text(v, 0x2E00, KeyCategory::Bluetooth, "USB/BT");
    push_text(v, 0x2F00, KeyCategory::Bluetooth, "BT On/Off");
    proof {
        assert(entries_view(v@) =~= s0 + bluetooth_keys());
    }
}

fn push_numbered_groups(v: &mut Vec<KeyEntry>)
    requires
        old(v)@.len() < 1024,
    ensures
        entries_view(final(v)@) == entries_view(old(v)@) + numbered_groups(),
        final(v)@.len() == old(v)@.len() + 48,
{
    let ghost s0 = entries_view(v@);
    push_numbered(v, 8, KeyCategory::TapDance, "TD ", 0x6000, 0x100);
    push_numbered(v, 10, KeyCategory::Macro, "M", 0x1500, 0x100);
    push_numbered(v, 10, KeyCategory::Layer, "OSL ", 0x3100, 1);
    push_numbered(v, 10, KeyCategory::Layer, "MO ", 0x100, 0x100);
    push_numbered(v, 10, KeyCategory::Layer, "TO ", 0xB00, 0x100);
    proof {
        assert(entries_view(v@) =~= s0 + numbered_groups());
    }
}

fn push_special_keys(v: &mut Vec<KeyEntry>)
    requires
        old(v)@.len() < 1024,
    ensures
        entries_view(final(v)@) == entries_view(old(v)@) + special_keys(),
        final(v)@.len() == old(v)@.len() + 6,
{
    let ghost s0 = entries_view(v@);
    push_text(v, 0x3200, KeyCategory::Special, "Caps Word");
    push_text(v, 0x3300, KeyCategory::Special, "Repeat");
    push_text(v, 0x3400, KeyCategory::Special, "Leader");
    push_text(v, 0x3900, KeyCategory::Special, "GEsc");
    push_text(v, 0x3A00, KeyCategory::Special, "Layer Lock");
    push_text(v, 0x3C00, KeyCategory::Special, "AS Toggle");
    proof {
        assert(entries_view(v@) =~= s0 + special_keys());
    }
}

/// Build the key catalogue of the key selector.
pub fn key_catalog() -> (entries: Vec<KeyEntry>)
    ensures
        entries_view(entries@) == spec_key_catalog(),
{
    let mut v: Vec<KeyEntry> = Vec::new();
    push_text(&mut v, 0, KeyCategory::Special, "None");
    let ghost s0 = entries_view(v@);
    assert(s0 =~= seq![text_key(0, KeyCategory::Special, "None"@)]);
    push_hid_keys(&mut v);
    assert(hid_keys().len() < 200);
    push_bluetooth_keys(&mut v);
    push_numbered_groups(&mut v);
    push_special_keys(&mut v);
    v
}

/// The tabs of the key selector.
#[derive(Clone, Copy, Debug, PartialEq, Eq, Structural)]
pub enum KeyGroup {
    Letters,
    Numbers,
    Modifiers,
    Navigation,
    Function,
    Symbols,
    Layers,
    Special,
    TapDanceMacro,
}

/// Which categories a tab shows: navigation also shows control keys, special also
/// shows Bluetooth and media keys, and one tab holds tap dances and macros.
pub open spec fn spec_group_matches(group: KeyGroup, cat: KeyCategory) -> bool {
    match group {
        KeyGroup::Letters => cat == KeyCategory::Letter,
        KeyGroup::Numbers => cat == KeyCategory::Number,
        KeyGroup::Modifiers => cat == KeyCategory::Modifier,
        KeyGroup::Navigation => cat == KeyCategory::Navigation || cat == KeyCategory::Control,
        KeyGroup::Function => cat == KeyCategory::Function,
        KeyGroup::Symbols => cat == KeyCategory::Symbol,
        KeyGroup::Layers => cat == KeyCategory::Layer,
        KeyGroup::Special => cat == KeyCategory::Special || cat == KeyCategory::Bluetooth
            || cat == KeyCategory::Media,
        KeyGroup::TapDanceMacro => cat == KeyCategory::TapDance || cat == KeyCategory::Macro,
    }
}

/// Whether a tab shows keys of a category.
pub fn group_matches(group: KeyGroup, cat: KeyCategory) -> (r: bool)
    ensures
        r == spec_group_matches(group, cat),
{
    match group {
        KeyGroup::Letters => cat == KeyCategory::Letter,
        KeyGroup::Numbers => cat == KeyCategory::Number,
        KeyGroup::Modifiers => cat == KeyCategory::Modifier,
        KeyGroup::Navigation => cat == KeyCategory::Navigation || cat == KeyCategory::Control,
        KeyGroup::Function => cat == KeyCategory::Function,
        KeyGroup::Symbols => cat == KeyCategory::Symbol,
        KeyGroup::Layers => cat == KeyCategory::Layer,
        KeyGroup::Special => cat == KeyCategory::Special || cat == KeyCategory::Bluetooth
            || cat == KeyCategory::Media,
        KeyGroup::TapDanceMacro => cat == KeyCategory::TapDance || cat == KeyCategory::Macro,
    }
}

/// Positions among the first `n` entries shown in a tab: the category belongs to the
/// tab and the search matched the entry.
pub open spec fn spec_group_members(
    cats: Seq<KeyCategory>,
    hits: Seq<bool>,
    group: KeyGroup,
    n: int,
) -> Seq<usize>
    decreases n,
{
    if n <= 0 {
        Seq::empty()
    } else if spec_group_matches(group, cats[n - 1]) && hits[n - 1] {
        spec_group_members(cats, hits, group, n - 1).push((n - 1) as usize)
    } else {
        spec_group_members(cats, hits, group, n - 1)
    }
}

/// The categories of a list of entries.
pub open spec fn categories(entries: Seq<KeyEntry>) -> Seq<KeyCategory> {
    entries.map_values(|e: KeyEntry| e.category)
}

/// Positions of the entries a tab shows, in catalogue order; `hits[i]` tells whether
/// the search text matched entry `i`.
pub fn group_members(entries: &Vec<KeyEntry>, hits: &Vec<bool>, group: KeyGroup) -> (idx: Vec<usize>)
    requires
        hits@.len() == entries@.len(),
    ensures
        idx@ == spec_group_members(categories(entries@), hits@, group, entries@.len() as int),
{
    let mut idx: Vec<usize> = Vec::new();
    let n = entries.len();
    let mut i: usize = 0;
    while i < n
        invariant
            n == entries@.len(),
            hits@.len() == n,
            i <= n,
            idx@ == spec_group_members(categories(entries@), hits@, group, i as int),
        decreases n - i,
    {
        if group_matches(group, entries[i].category) && hits[i] {
            idx.push(i);
        }
        i = i + 1;
    }
    idx
}

/// The name under which a category is shown (and searched).
pub open spec fn spec_category_name(cat: KeyCategory) -> Seq<char> {
    match cat {
        KeyCategory::Letter => "Letter"@,
        KeyCategory::Number => "Number"@,
        KeyCategory::Control => "Control"@,
        KeyCategory::Symbol => "Symbol"@,
        KeyCategory::Function => "Function"@,
        KeyCategory::Navigation => "Navigation"@,
        KeyCategory::Modifier => "Modifier"@,
        KeyCategory::Keypad => "Keypad"@,
        KeyCategory::Media => "Media"@,
        KeyCategory::Bluetooth => "Bluetooth"@,
        KeyCategory::TapDance => "Tap Dance"@,
        KeyCategory::Macro => "Macro"@,
        KeyCategory::Layer => "Layer"@,
        KeyCategory::Special => "Special"@,
    }
}

/// The name under which a category is shown (and searched).
pub fn category_name(cat: KeyCategory) -> (name: &'static str)
    ensures
        name@ == spec_category_name(cat),
{
    match cat {
        KeyCategory::Letter => "Letter",
        KeyCategory::Number => "Number",
        KeyCategory::Control => "Control",
        KeyCategory::Symbol => "Symbol",
        KeyCategory::Function => "Function",
        KeyCategory::Navigation => "Navigation",
        KeyCategory::Modifier => "Modifier",
        KeyCategory::Keypad => "Keypad",
        KeyCategory::Media => "Media",
        KeyCategory::Bluetooth => "Bluetooth",
        KeyCategory::TapDance => "Tap Dance",
        KeyCategory::Macro => "Macro",
        KeyCategory::Layer => "Layer",
        KeyCategory::Special => "Special",
    }
}

/// Whether the key selector's search text matches an entry: an empty search matches
/// everything; otherwise the lower-cased search text occurs in the lower-cased name of
/// the entry or of its category.
pub open spec fn spec_entry_matches(name: Seq<char>, cat: KeyCategory, search: Seq<char>) -> bool {
    let needle = spec_lowercase(search);
    needle.len() == 0 || occurs_in(spec_lowercase(name), needle) || occurs_in(
        spec_lowercase(spec_category_name(cat)),
        needle,
    )
}

/// Whether the search text, already lower-cased into `needle`, matches an entry.
fn matches_lowered(name: &str, cat: KeyCategory, needle: &Vec<char>) -> (r: bool)
    ensures
        r == (needle@.len() == 0 || occurs_in(spec_lowercase(name@), needle@) || occurs_in(
            spec_lowercase(spec_category_name(cat)),
            needle@,
        )),
{
    if needle.len() == 0 {
        return true;
    }
    let lname = lowercase(name);
    if contains_chars(&chars_of(lname.as_str()), needle) {
        return true;
    }
    let lcat = lowercase(category_name(cat));
    contains_chars(&chars_of(lcat.as_str()), needle)
}

/// Whether the key selector's search text matches an entry with this name and category.
pub fn entry_matches(name: &str, cat: KeyCategory, search: &str) -> (r: bool)
    ensures
        r == spec_entry_matches(name@, cat, search@),
{
    let lsearch = lowercase(search);
    let needle = chars_of(lsearch.as_str());
    matches_lowered(name, cat, &needle)
}

/// For each entry, whether the search text matches it; `names[i]` is the name shown
/// for entry `i` (a HID key is named with the active keyboard layout).
pub fn search_hits(entries: &Vec<KeyEntry>, names: &Vec<String>, search: &str) -> (hits: Vec<bool>)
    requires
        names@.len() == entries@.len(),
    ensures
        hits@.len() == entries@.len(),
        forall|i: int|
            0 <= i < entries@.len() ==> hits@[i] == spec_entry_matches(
                #[trigger] names@[i]@,
                entries@[i].category,
                search@,
            ),
{
    let lsearch = lowercase(search);
    let needle = chars_of(lsearch.as_str());
    let n = entries.len();
    let mut hits: Vec<bool> = Vec::new();
    let mut i: usize = 0;
    while i < n
        invariant
            n == entries@.len(),
            names@.len() == n,
            i <= n,
            needle@ == spec_lowercase(search@),
            hits@.len() == i,
            forall|k: int|
                0 <= k < i ==> hits@[k] == spec_entry_matches(
                    #[trigger] names@[k]@,
                    entries@[k].category,
                    search@,
                ),
        decreases n - i,
    {
        let hit = matches_lowered(names[i].as_str(), entries[i].category, &needle);
        hits.push(hit);
        i = i + 1;
    }
    hits
}

} // verus!
