use std::collections::HashMap;

use purgedb::color::Color;
use purgedb::filament::{Filament, FilamentMap};
use purgedb::grid::{FilamentGrid, FilamentGridData, FilamentGridSave, ONE_BITS};
use purgedb::history::{
    decode_history_row, history_order, history_timestamp, toggle_sort, HistoryRow, SortOrder,
};

fn fil(id: u32, name: &str) -> Filament {
    Filament::new(id, name.to_string(), "M".to_string(), Color::rgb(0, 0, 0), &[], String::new(), String::new())
}

fn map_of(ids: &[u32]) -> FilamentMap {
    let mut hm = HashMap::new();
    for id in ids {
        hm.insert(*id, fil(*id, &format!("f{}", id)));
    }
    FilamentMap::new(hm)
}

#[test]
fn toggle_sort_cycles_on_one_column() {
    assert_eq!(toggle_sort(None, 0), Some((0, SortOrder::Ascending)));
    assert_eq!(toggle_sort(Some((0, SortOrder::Ascending)), 0), Some((0, SortOrder::Descending)));
    assert_eq!(toggle_sort(Some((0, SortOrder::Descending)), 0), Some((0, SortOrder::Ascending)));
    assert_eq!(toggle_sort(Some((1, SortOrder::Ascending)), 2), Some((2, SortOrder::Ascending)));
    let twice = toggle_sort(toggle_sort(Some((1, SortOrder::Ascending)), 1), 1);
    assert_eq!(twice, Some((1, SortOrder::Ascending)));
}

#[test]
fn history_order_only_for_first_column() {
    assert_eq!(history_order(Some((0, SortOrder::Ascending))), Some(SortOrder::Ascending));
    assert_eq!(history_order(Some((0, SortOrder::Descending))), Some(SortOrder::Descending));
    assert_eq!(history_order(Some((1, SortOrder::Descending))), None);
    assert_eq!(history_order(None), None);
}

#[test]
fn history_timestamp_falls_back_to_epoch() {
    assert_eq!(history_timestamp(1431648000), 1431648000);
    assert_eq!(history_timestamp(0), 0);
    assert_eq!(history_timestamp(i64::MAX), 0);
    assert_eq!(history_timestamp(i64::MIN), 0);
}

fn slots(vals: &[Option<i64>]) -> Vec<Option<i64>> {
    let mut v = vals.to_vec();
    v.resize(16, None);
    v
}

#[test]
fn decode_history_row_cases() {
    let s = slots(&[Some(4), Some(7), Some(9)]);
    let r = decode_history_row(5, 1700000000, 3, &s, Some(ONE_BITS), None).unwrap();
    assert_eq!(r.id, 5);
    assert_eq!(r.timestamp, 1700000000);
    assert_eq!(r.num_filaments, 3);
    assert_eq!(r.filaments, vec![4, 7, 9]);
    assert_eq!(r.multiplier, Some(ONE_BITS));
    assert_eq!(r.offset, None);
    // fewer slots than stored: only the first ones are read
    let r2 = decode_history_row(1, 0, 2, &s, None, Some(3)).unwrap();
    assert_eq!(r2.filaments, vec![4, 7]);
    // a missing slot drops the row
    assert!(decode_history_row(1, 0, 4, &s, None, None).is_none());
    // a negative or too large count drops the row
    assert!(decode_history_row(1, 0, -1, &s, None, None).is_none());
    assert!(decode_history_row(1, 0, 17, &slots(&[Some(1); 16]), None, None).is_none());
    // an id out of range drops the row
    assert!(decode_history_row(1, 0, 1, &slots(&[Some(-2)]), None, None).is_none());
    assert!(decode_history_row(1, 0, 1, &slots(&[Some(1 << 40)]), None, None).is_none());
    assert_eq!(decode_history_row(1, 0, 0, &s, None, None).unwrap().filaments, Vec::<u32>::new());
}

#[test]
fn grid_defaults() {
    let g = FilamentGridData::default();
    assert_eq!(g.num_filaments(), 4);
    assert_eq!(g.multiplier, ONE_BITS);
    assert!(!g.use_multiplier && !g.use_offset);
    assert_eq!(g.offset, 0);
    for i in 0..17 {
        assert_eq!(g.id(i), None);
    }
    let s = FilamentGridSave::new();
    assert_eq!(s.num_filaments, 4);
    assert_eq!(s.pickers, [None; 16]);
    assert_eq!(s.multiplier, ONE_BITS);
}

#[test]
fn load_from_history_sets_filaments_and_settings() {
    let map = map_of(&[1, 2, 3]);
    let mut g = FilamentGridData::default();
    g.picker_mut(5).set_selected(Some(fil(3, "keep")));
    let row = HistoryRow {
        id: 1,
        timestamp: 0,
        num_filaments: 3,
        filaments: vec![2, 99, 1],
        multiplier: Some(0x4000_0000),
        offset: None,
    };
    g.load_from_history(&map, &row);
    assert_eq!(g.num_filaments(), 3);
    assert_eq!(g.id(0), Some(2));
    assert_eq!(g.id(1), None);
    assert_eq!(g.id(2), Some(1));
    assert_eq!(g.id(5), Some(3));
    assert_eq!(g.multiplier, 0x4000_0000);
    assert!(g.use_multiplier);
    assert_eq!(g.offset, 0);
    assert!(!g.use_offset);
    let row2 = HistoryRow { id: 2, timestamp: 0, num_filaments: 2, filaments: vec![], multiplier: None, offset: Some(12) };
    g.load_from_history(&map, &row2);
    assert_eq!(g.multiplier, 0);
    assert!(!g.use_multiplier);
    assert_eq!(g.offset, 12);
    assert!(g.use_offset);
    assert_eq!(g.id(0), Some(2));
}

#[test]
fn slot_ids_lists_all_sixteen() {
    let mut g = FilamentGridData::default();
    g.picker_mut(0).set_selected(Some(fil(8, "a")));
    g.picker_mut(15).set_selected(Some(fil(9, "b")));
    let ids = g.slot_ids();
    assert_eq!(ids.len(), 16);
    assert_eq!(ids[0], Some(8));
    assert_eq!(ids[15], Some(9));
    assert!(ids[1..15].iter().all(|x| x.is_none()));
}

#[test]
fn save_then_load_restores_the_grid() {
    let map = map_of(&[1, 2, 3]);
    let mut grid = FilamentGrid::default();
    grid.set_picker(0, Some(map.get(&3).unwrap().clone()));
    grid.set_picker(1, Some(map.get(&1).unwrap().clone()));
    *grid.num_filaments_mut() = 2;
    *grid.offset_mut() = 30;
    *grid.use_offset_mut() = true;
    *grid.multiplier_mut() = 0x3FC0_0000;
    grid.save_picker(2);
    grid.clear();
    *grid.num_filaments_mut() = 7;
    *grid.use_offset_mut() = false;
    assert_eq!(grid.current.id(0), None);
    grid.load_picker(&map, 2);
    assert_eq!(grid.current.id(0), Some(3));
    assert_eq!(grid.current.id(1), Some(1));
    assert_eq!(grid.current.id(2), None);
    assert_eq!(grid.num_filaments(), 2);
    assert_eq!(grid.offset(), 30);
    assert!(grid.use_offset());
    assert_eq!(grid.multiplier(), 0x3FC0_0000);
    assert!(!grid.use_multiplier());
    // loading an empty save slot changes nothing
    grid.load_picker(&map, 1);
    assert_eq!(grid.num_filaments(), 2);
    grid.delete_saved(2);
    assert!(grid.grids[2].is_none());
}

#[test]
fn to_grid_and_from_grid() {
    let map = map_of(&[4]);
    let mut data = FilamentGridData::default();
    data.picker_mut(3).set_selected(Some(fil(4, "x")));
    let saved = FilamentGridSave::from_grid(&data);
    assert_eq!(saved.pickers[3], Some(4));
    assert_eq!(saved.pickers[0], None);
    let mut other = FilamentGridData::default();
    other.picker_mut(0).set_selected(Some(fil(4, "x")));
    saved.to_grid(&map, &mut other);
    assert_eq!(other.id(0), None);
    assert_eq!(other.id(3), Some(4));
    assert_eq!(other.picker(3).buf, "f4");
}

#[test]
fn add_and_remove_filaments_stay_in_range() {
    let mut grid = FilamentGrid::default();
    for _ in 0..20 {
        grid.add_filament();
    }
    assert_eq!(grid.num_filaments(), 16);
    for _ in 0..20 {
        grid.remove_filament();
    }
    assert_eq!(grid.num_filaments(), 2);
    assert_eq!(grid.pickers().len(), 16);
}

#[test]
fn sent_grid_loads_back_from_history() {
    let map = map_of(&[3, 5, 8]);
    let mut g = FilamentGrid::default();
    g.current.num_filaments = 3;
    g.set_picker(0, Some(fil(3, "f3")));
    g.set_picker(1, Some(fil(5, "f5")));
    g.set_picker(2, Some(fil(8, "f8")));
    let cols: Vec<Option<i64>> = g.current.slot_ids().iter().map(|id| id.map(|x| x as i64)).collect();
    let row = decode_history_row(1, 100, 3, &cols, Some(ONE_BITS), Some(0)).expect("row decodes");
    let mut back = FilamentGridData::default();
    back.load_from_history(&map, &row);
    assert_eq!(back.num_filaments, 3);
    assert_eq!(back.id(0), Some(3));
    assert_eq!(back.id(1), Some(5));
    assert_eq!(back.id(2), Some(8));
    assert_eq!(back.id(3), None);

    // an empty slot among the first ones hides the row
    g.set_picker(1, None);
    let cols: Vec<Option<i64>> = g.current.slot_ids().iter().map(|id| id.map(|x| x as i64)).collect();
    assert!(decode_history_row(1, 100, 3, &cols, None, None).is_none());
}

#[test]
fn pickers_mut_edits_the_current_grid() {
    let mut g = FilamentGrid::default();
    g.pickers_mut()[1].set_selected(Some(fil(9, "f9")));
    assert_eq!(g.pickers_mut().len(), 16);
    assert_eq!(g.current.id(1), Some(9));
    assert_eq!(g.pickers()[1].filament_id(), Some(9));
    assert_eq!(g.num_filaments(), 4);
}

#[test]
fn loading_history_shows_names_in_pickers() {
    let map = map_of(&[1]);
    let mut g = FilamentGridData::default();
    let ids: Vec<u32> = g.pickers.iter().map(|p| p.id).collect();
    let row = HistoryRow { id: 0, timestamp: 0, num_filaments: 2, filaments: vec![1, 7], multiplier: Some(ONE_BITS), offset: None };
    g.load_from_history(&map, &row);
    assert_eq!(g.pickers[0].buf, "f1");
    assert_eq!(g.pickers[1].buf, "");
    assert_eq!(g.id(1), None);
    assert!(g.pickers.iter().map(|p| p.id).eq(ids.into_iter()));
}

#[test]
fn grid_edits_keep_settings_and_show_names() {
    let mut g = FilamentGrid::default();
    g.current.use_offset = true;
    g.current.offset = 5;
    g.set_picker(3, Some(fil(2, "two")));
    assert_eq!(g.current.pickers[3].buf, "two");
    g.add_filament();
    g.remove_filament();
    g.clear();
    assert!(g.use_offset());
    assert_eq!(g.offset(), 5);
    assert!(g.current.pickers.iter().all(|p| p.buf.is_empty() && p.selected.is_none()));
}
