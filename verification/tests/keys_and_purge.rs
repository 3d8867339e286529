use purgedb::keys::{
    alt_tab, focus_first_input_tabs, send_number, shift_tab, tab, tabs, KeyStep, DELAY, KEY_ALT,
    KEY_DELETE, KEY_SHIFT, KEY_TAB,
};
use purgedb::purge::{
    combine_purges, displayed_purge, is_stale, pick_default_black_white, send_purge_keys,
    stored_purge, PurgeValue,
};

fn press(k: u16) -> Vec<KeyStep> {
    vec![KeyStep::Down(k), KeyStep::Pause(DELAY), KeyStep::Up(k), KeyStep::Pause(DELAY)]
}

fn presses(keys: &[u16]) -> Vec<KeyStep> {
    keys.iter().flat_map(|k| press(*k)).collect()
}

#[test]
fn send_number_types_deletes_digits_and_tab() {
    assert_eq!(
        send_number(120, true),
        presses(&[KEY_DELETE, KEY_DELETE, KEY_DELETE, 0x31, 0x32, 0x30, KEY_TAB])
    );
    assert_eq!(send_number(0, false), presses(&[KEY_DELETE, KEY_DELETE, KEY_DELETE, 0x30]));
    assert_eq!(
        send_number(4294967295, false).len(),
        (3 + 10) * 4
    );
}

#[test]
fn send_number_digits_spell_the_number() {
    for n in [0u32, 7, 10, 999, 270, 65536, u32::MAX] {
        let steps = send_number(n, false);
        let digits: String = steps
            .iter()
            .filter_map(|s| match s {
                KeyStep::Down(k) if *k != KEY_DELETE => Some(char::from(*k as u8)),
                _ => None,
            })
            .collect();
        assert_eq!(digits, n.to_string());
    }
}

#[test]
fn shift_tab_holds_shift_around_quick_tabs() {
    let steps = shift_tab(2);
    let one = [KeyStep::Down(KEY_TAB), KeyStep::Pause(1), KeyStep::Up(KEY_TAB), KeyStep::Pause(1)];
    let mut expected = vec![KeyStep::Down(KEY_SHIFT)];
    expected.extend_from_slice(&one);
    expected.extend_from_slice(&one);
    expected.push(KeyStep::Up(KEY_SHIFT));
    assert_eq!(steps, expected);
    assert_eq!(shift_tab(0), vec![KeyStep::Down(KEY_SHIFT), KeyStep::Up(KEY_SHIFT)]);
}

#[test]
fn tab_tabs_and_alt_tab() {
    let mut t = press(KEY_TAB);
    t.push(KeyStep::Pause(DELAY));
    assert_eq!(tab(), t);
    assert_eq!(tabs(3), presses(&[KEY_TAB, KEY_TAB, KEY_TAB]));
    assert_eq!(tabs(0), vec![]);
    assert_eq!(focus_first_input_tabs(4), presses(&[KEY_TAB; 9]));
    assert_eq!(
        alt_tab(),
        vec![
            KeyStep::Down(KEY_ALT),
            KeyStep::Down(KEY_TAB),
            KeyStep::Pause(DELAY),
            KeyStep::Up(KEY_TAB),
            KeyStep::Up(KEY_ALT)
        ]
    );
}

#[test]
fn purge_display_and_store() {
    assert_eq!(displayed_purge(100, false, false, 20), PurgeValue::Exact(100));
    assert_eq!(displayed_purge(100, false, true, 20), PurgeValue::Exact(120));
    assert_eq!(displayed_purge(100, true, false, 20), PurgeValue::Scaled(100));
    assert_eq!(displayed_purge(100, true, true, 20), PurgeValue::Exact(100));
    assert_eq!(stored_purge(120, false, true, 20), PurgeValue::Exact(100));
    assert_eq!(stored_purge(120, true, false, 20), PurgeValue::Scaled(120));
    assert_eq!(stored_purge(120, true, true, 20), PurgeValue::Exact(120));
    assert_eq!(stored_purge(120, false, false, 20), PurgeValue::Exact(120));
}

#[test]
fn offset_round_trip() {
    for p in [0u32, 5, 250, 999] {
        match displayed_purge(p, false, true, 40) {
            PurgeValue::Exact(q) => assert_eq!(stored_purge(q, false, true, 40), PurgeValue::Exact(p)),
            _ => panic!("offset alone gives an exact value"),
        }
    }
}

#[test]
fn combine_purges_fills_missing_with_999() {
    let froms = vec![(2, 150), (5, 300)];
    let backs = vec![Some(170), None];
    assert_eq!(combine_purges(&froms, &backs), vec![(2, (150, 170)), (5, (300, 999))]);
    assert_eq!(combine_purges(&vec![], &vec![]), vec![]);
}

#[test]
fn defaults_take_the_last_of_each_color() {
    let rows = vec![
        (1, "black".to_string()),
        (2, "white".to_string()),
        (3, "black".to_string()),
        (4, "grey".to_string()),
    ];
    assert_eq!(pick_default_black_white(&rows), (Some(3), Some(2)));
    assert_eq!(pick_default_black_white(&vec![]), (None, None));
    assert_eq!(pick_default_black_white(&vec![(9, "White".to_string())]), (None, None));
}

#[test]
fn staleness() {
    assert!(is_stale(true, 0));
    assert!(!is_stale(false, 30_000_000_000));
    assert!(is_stale(false, 30_000_000_001));
}

#[test]
fn send_purge_keys_for_two_filaments() {
    // values[from * 2 + to]; the diagonal is skipped
    let values = vec![None, Some(150), None, Some(7)];
    let steps = send_purge_keys(2, &values);
    let mut expected = Vec::new();
    expected.extend(send_number(150, true));
    let mut t = press(KEY_TAB);
    t.push(KeyStep::Pause(DELAY));
    expected.extend(t.clone());
    expected.extend(t.clone());
    expected.extend(t.clone());
    expected.extend(send_number(999, true));
    expected.extend(t.clone());
    expected.extend(t.clone());
    expected.extend(t.clone());
    assert_eq!(steps, expected);
}

#[test]
fn send_purge_keys_for_four_filaments_has_no_padding() {
    let values: Vec<Option<u32>> = (0..16).map(|i| Some(i as u32)).collect();
    let steps = send_purge_keys(4, &values);
    let mut t = press(KEY_TAB);
    t.push(KeyStep::Pause(DELAY));
    let mut expected = Vec::new();
    for from in 0..4 {
        for to in 0..4 {
            if from != to {
                expected.extend(send_number((from * 4 + to) as u32, true));
            }
        }
        expected.extend(t.clone());
    }
    assert_eq!(steps, expected);
}
