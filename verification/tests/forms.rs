use std::collections::HashMap;

use purgedb::calibration::{compare_text, sort_table, visible_rows, ListCalibrations};
use purgedb::color::Color;
use purgedb::enter_purge::EnterPurge;
use purgedb::enter_purge2;
use purgedb::filament::{filament_from_row, Filament, FilamentMap};
use purgedb::history::SortOrder;
use purgedb::new_filament::{color_picked, color_typed, NewFilament};
use purgedb::purge::PurgeValue;
use purgedb::tabs::{Keywords, Tab};

fn fil(id: u32, name: &str) -> Filament {
    Filament::new(id, name.to_string(), "M".to_string(), Color::rgb(1, 2, 3), &[], String::new(), String::new())
}

#[test]
fn new_filament_new_fills_colors() {
    let f = NewFilament::new("PolyLite", "Polymaker", [0xFF, 0xFF, 0xFF], &[[0x06, 0x9A, 0x2E], [0x2A, 0x60, 0x99]]);
    assert_eq!(f.name, "PolyLite");
    assert_eq!(f.manufacturer, "Polymaker");
    assert_eq!(f.color_base, ([0xFF, 0xFF, 0xFF], "FFFFFF".to_string()));
    assert_eq!(f.colors, vec![([0x06, 0x9A, 0x2E], "069A2E".to_string()), ([0x2A, 0x60, 0x99], "2A6099".to_string())]);
    assert_eq!(f.row_id, None);
    assert_eq!(f.material, "");
    assert!(f.not_empty());
}

#[test]
fn new_filament_default_and_clear() {
    let d = NewFilament::default();
    assert_eq!(d.color_base, ([0, 0, 0], "000000".to_string()));
    assert!(!d.not_empty());
    let mut f = NewFilament::new("a", "b", [1, 2, 3], &[]);
    f.selected = Some(4);
    f.row_id = Some(9);
    f.confirm_delete = Some(4);
    f.clear();
    assert_eq!(f.selected, Some(4));
    assert_eq!(f.row_id, None);
    assert_eq!(f.confirm_delete, None);
    assert_eq!(f.name, "");
    assert_eq!(f.color_base, ([0, 0, 0], "000000".to_string()));
}

#[test]
fn not_empty_needs_name_and_manufacturer() {
    assert!(!NewFilament::new("", "b", [0; 3], &[]).not_empty());
    assert!(!NewFilament::new("a", "", [0; 3], &[]).not_empty());
    assert!(NewFilament::new("a", "b", [0; 3], &[]).not_empty());
}

#[test]
fn load_filament_and_id() {
    let mut f = NewFilament::default();
    f.selected = Some(2);
    let src = Filament::new(2, "N".into(), "M".into(), Color::rgb(0xAA, 0xBB, 0xCC), &[Color::rgb(1, 2, 3)], "ABS".into(), "x".into());
    f.load_filament(&src);
    assert_eq!(f.row_id, Some(2));
    assert_eq!(f.name, "N");
    assert_eq!(f.material, "ABS");
    assert_eq!(f.notes, "x");
    assert_eq!(f.color_base, ([0xAA, 0xBB, 0xCC], "AABBCC".to_string()));
    assert_eq!(f.colors, vec![([1, 2, 3], "010203".to_string())]);
    assert_eq!(f.selected, Some(2));
    let mut g = NewFilament::default();
    g.load_id(&src);
    assert_eq!(g.row_id, Some(2));
    assert_eq!(g.name, "");
    g.clear_row_id();
    assert_eq!(g.row_id, None);
}

#[test]
fn add_and_remove_colors() {
    let mut f = NewFilament::default();
    f.add_color();
    f.add_color();
    f.add_color();
    assert_eq!(f.colors.len(), 2);
    assert_eq!(f.colors[0], ([0, 0, 0], String::new()));
    f.remove_color();
    f.remove_color();
    f.remove_color();
    assert!(f.colors.is_empty());
}

#[test]
fn delete_needs_two_clicks_on_the_same_filament() {
    let mut f = NewFilament::default();
    assert_eq!(f.delete_clicked(), None);
    f.selected = Some(5);
    assert_eq!(f.delete_clicked(), None);
    assert_eq!(f.confirm_delete, Some(5));
    assert_eq!(f.delete_clicked(), Some(5));
    f.selected = Some(6);
    assert_eq!(f.delete_clicked(), None);
    assert_eq!(f.confirm_delete, Some(5));
    f.delete_unhovered(true);
    assert_eq!(f.confirm_delete, Some(5));
    f.delete_unhovered(false);
    assert_eq!(f.confirm_delete, None);
}

#[test]
fn color_codes_of_the_form() {
    let f = NewFilament::new("a", "b", [0xFF, 0, 0], &[[0, 0xFF, 0]]);
    assert_eq!(f.color_codes(), (0xFF0000, 0x00FF00, -1));
    let g = NewFilament::new("a", "b", [0, 0, 1], &[]);
    assert_eq!(g.color_codes(), (1, -1, -1));
}

#[test]
fn color_entry_follows_picker_and_text() {
    let mut e = ([0x12u8, 0x34, 0x56], String::from("zz"));
    color_picked(&mut e);
    assert_eq!(e.1, "123456");
    e.1 = "abcdef".to_string();
    assert!(color_typed(&mut e));
    assert_eq!(e.0, [0xAB, 0xCD, 0xEF]);
    e.1 = "nothex".to_string();
    assert!(!color_typed(&mut e));
    assert_eq!(e.0, [0xAB, 0xCD, 0xEF]);
}

fn typed_value(text: &str) -> Option<u32> {
    let mut e = EnterPurge::default();
    let mut p = purgedb::picker::FilamentPicker::default();
    p.set_selected(Some(fil(1, "one")));
    e.set_picker1(&p);
    p.set_selected(Some(fil(2, "two")));
    e.set_picker2(&p);
    e.purge1 = text.to_string();
    let v = e.values_to_save(false, false, 0);
    match v.as_slice() {
        [] => None,
        [entry] => match entry.value {
            PurgeValue::Exact(n) => Some(n),
            PurgeValue::Scaled(_) => panic!("no multiplier was on"),
        },
        _ => panic!("one typed value gives at most one entry"),
    }
}

#[test]
fn parse_u32_cases() {
    assert_eq!(typed_value("270"), Some(270));
    assert_eq!(typed_value("+5"), Some(5));
    assert_eq!(typed_value("0"), Some(0));
    assert_eq!(typed_value("4294967295"), Some(u32::MAX));
    assert_eq!(typed_value("4294967296"), None);
    assert_eq!(typed_value(""), None);
    assert_eq!(typed_value("+"), None);
    assert_eq!(typed_value(" 5"), None);
    assert_eq!(typed_value("-1"), None);
    assert_eq!(typed_value("1.5"), None);
}

#[test]
fn enter_purge_pickers_and_save() {
    let mut e = EnterPurge::default();
    let mut p = purgedb::picker::FilamentPicker::default();
    p.set_selected(Some(fil(1, "one")));
    e.set_picker1(&p);
    p.set_selected(Some(fil(2, "two")));
    e.set_picker2(&p);
    e.purge1 = "150".into();
    e.purge2 = "x".into();
    let v = e.values_to_save(false, false, 0);
    assert_eq!(v.len(), 1);
    assert_eq!((v[0].from, v[0].to, v[0].value), (1, 2, PurgeValue::Exact(150)));
    e.purge2 = "120".into();
    let v = e.values_to_save(false, true, 20);
    assert_eq!(v.len(), 2);
    assert_eq!((v[0].from, v[0].to, v[0].value), (1, 2, PurgeValue::Exact(130)));
    assert_eq!((v[1].from, v[1].to, v[1].value), (2, 1, PurgeValue::Exact(100)));
    let v = e.values_to_save(true, false, 20);
    assert_eq!(v[0].value, PurgeValue::Scaled(150));
    e.swap_pickers();
    assert_eq!(e.picker1.filament_id(), Some(2));
    assert_eq!(e.picker2.filament_id(), Some(1));
    e.set_picker2(&e.picker1.clone());
    assert!(e.values_to_save(false, false, 0).is_empty());
}

#[test]
fn enter_purge_sync_clears_on_change() {
    let mut e = EnterPurge::default();
    e.purge1 = "1".into();
    e.purge2 = "2".into();
    e.sync_selection();
    assert_eq!(e.purge1, "1");
    e.picker1.set_selected(Some(fil(1, "one")));
    e.sync_selection();
    assert_eq!(e.purge1, "");
    assert_eq!(e.purge2, "");
    assert_eq!(e.prev1.as_ref().map(|f| f.id), Some(1));
    e.purge1 = "3".into();
    e.sync_selection();
    assert_eq!(e.purge1, "3");
    assert_eq!(enter_purge2::EnterPurge::default().data.num_filaments(), 4);
}

#[test]
fn compare_text_is_string_order() {
    let words = ["", "a", "B", "b", "ab", "abc", "é", "z", "Ä"];
    for x in words {
        for y in words {
            let expected = match x.cmp(y) {
                std::cmp::Ordering::Less => -1,
                std::cmp::Ordering::Equal => 0,
                std::cmp::Ordering::Greater => 1,
            };
            assert_eq!(compare_text(x, y), expected, "{} vs {}", x, y);
        }
    }
}

fn names() -> FilamentMap {
    let mut hm = HashMap::new();
    hm.insert(1, fil(1, "Orange"));
    hm.insert(2, fil(2, "Blue"));
    hm.insert(3, fil(3, "Blue"));
    hm.insert(4, fil(4, "Red"));
    FilamentMap::new(hm)
}

#[test]
fn sort_table_by_name() {
    let map = names();
    let table = vec![(1, (10, 5)), (9, (1, 1)), (3, (7, 7)), (8, (2, 2)), (2, (3, 3)), (4, (9, 9))];
    let mut t = table.clone();
    sort_table(&mut t, &map, Some((0, SortOrder::Ascending)));
    assert_eq!(t.iter().map(|r| r.0).collect::<Vec<_>>(), vec![3, 2, 1, 4, 8, 9]);
    let mut t = table.clone();
    sort_table(&mut t, &map, Some((0, SortOrder::Descending)));
    assert_eq!(t.iter().map(|r| r.0).collect::<Vec<_>>(), vec![4, 1, 3, 2, 9, 8]);
}

#[test]
fn sort_table_by_values_is_stable() {
    let map = names();
    let table = vec![(1, (10, 5)), (2, (3, 5)), (3, (10, 1)), (4, (3, 9))];
    let mut t = table.clone();
    sort_table(&mut t, &map, Some((1, SortOrder::Ascending)));
    assert_eq!(t, vec![(2, (3, 5)), (4, (3, 9)), (1, (10, 5)), (3, (10, 1))]);
    let mut t = table.clone();
    sort_table(&mut t, &map, Some((1, SortOrder::Descending)));
    assert_eq!(t, vec![(1, (10, 5)), (3, (10, 1)), (2, (3, 5)), (4, (3, 9))]);
    let mut t = table.clone();
    sort_table(&mut t, &map, Some((2, SortOrder::Ascending)));
    assert_eq!(t, vec![(3, (10, 1)), (1, (10, 5)), (2, (3, 5)), (4, (3, 9))]);
    let mut t = table.clone();
    sort_table(&mut t, &map, Some((2, SortOrder::Descending)));
    assert_eq!(t, vec![(4, (3, 9)), (1, (10, 5)), (2, (3, 5)), (3, (10, 1))]);
    let mut t = table.clone();
    sort_table(&mut t, &map, Some((3, SortOrder::Ascending)));
    assert_eq!(t, table);
    let mut t = table.clone();
    sort_table(&mut t, &map, None);
    assert_eq!(t, table);
}

#[test]
fn sort_table_matches_std_stable_sort() {
    let map = names();
    let table: Vec<(u32, (u32, u32))> = (0..30u32).map(|i| ((i * 7) % 6, ((i * 13) % 5, (i * 3) % 4))).collect();
    let mut t = table.clone();
    sort_table(&mut t, &map, Some((1, SortOrder::Ascending)));
    let mut s = table.clone();
    s.sort_by(|a, b| a.1 .0.cmp(&b.1 .0));
    assert_eq!(t, s);
    let mut t = table.clone();
    sort_table(&mut t, &map, Some((0, SortOrder::Descending)));
    let mut s = table.clone();
    s.sort_by(|a, b| match (map.get(&a.0), map.get(&b.0)) {
        (Some(f1), Some(f2)) => f2.name.cmp(&f1.name),
        (Some(_), None) => std::cmp::Ordering::Less,
        (None, Some(_)) => std::cmp::Ordering::Greater,
        (None, None) => b.0.cmp(&a.0),
    });
    assert_eq!(t, s);
}

#[test]
fn visible_rows_filter() {
    let map = names();
    let table = vec![(1, (1, 1)), (7, (2, 2)), (2, (3, 3)), (4, (4, 4))];
    assert_eq!(visible_rows(&table, &vec![1, 7, 4], &map), vec![(1, (1, 1)), (4, (4, 4))]);
    assert_eq!(visible_rows(&table, &vec![], &map), vec![]);
}

#[test]
fn calibration_selection_changes() {
    let mut l = ListCalibrations::default();
    assert!(!l.selection_changed());
    l.picker.set_selected(Some(fil(3, "x")));
    assert!(l.selection_changed());
    assert_eq!(l.last_selected_filament, Some(3));
    assert!(!l.selection_changed());
    l.picker.reset();
    assert!(l.selection_changed());
    assert_eq!(l.last_selected_filament, None);
}

#[test]
fn tab_default_and_keywords() {
    assert_eq!(Tab::default(), Tab::FilamentGrid);
    let _k = Keywords::new(vec![(1, "a".into())], vec![]);
}

#[test]
fn row_loaded_into_form_saves_same_codes() {
    let f = filament_from_row(7, "N".into(), "M".into(), 0x123456, 0xABCDEF, -1, "PLA".into(), "".into());
    let mut form = NewFilament::default();
    form.load_filament(&f);
    assert_eq!(form.color_codes(), (0x123456, 0xABCDEF, -1));
    let f = filament_from_row(7, "N".into(), "M".into(), 0, 0xFFFFFF, 0x00FF00, "PLA".into(), "".into());
    form.load_filament(&f);
    assert_eq!(form.color_codes(), (0, 0xFFFFFF, 0x00FF00));
    // a third color without a second one moves to the second column
    let f = filament_from_row(7, "N".into(), "M".into(), 1, -1, 5, "PLA".into(), "".into());
    form.load_filament(&f);
    assert_eq!(form.color_codes(), (1, 5, -1));
}
