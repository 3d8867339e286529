use std::collections::HashMap;

use purgedb::color::{
    color_code, color_from_code, color_hash_text, color_hex_text, color_to_bytes, parse_color_text, Color,
};
use purgedb::filament::{filament_from_row, filament_map_from_list, Filament, FilamentMap};
use purgedb::picker::FilamentPicker;

fn fil(id: u32, name: &str, manufacturer: &str, base: Color, colors: &[Color]) -> Filament {
    Filament::new(
        id,
        name.to_string(),
        manufacturer.to_string(),
        base,
        colors,
        "PLA".to_string(),
        String::new(),
    )
}

#[test]
fn hex_text_is_upper_case_two_digits_each() {
    assert_eq!(color_hex_text([0x12, 0xAB, 0x00]), "12AB00");
    assert_eq!(color_hex_text([0, 0, 0]), "000000");
    assert_eq!(color_hash_text([0xFF, 0x0F, 0xF0]), "#FF0FF0");
}

#[test]
fn color_to_bytes_gives_channels_and_text() {
    let (bytes, text) = color_to_bytes(Color { r: 0xDD, g: 0xA0, b: 0xDD, a: 7 });
    assert_eq!(bytes, [0xDD, 0xA0, 0xDD]);
    assert_eq!(text, "DDA0DD");
}

#[test]
fn color_codes_pack_rgb_and_mark_missing() {
    assert_eq!(color_code(Some([1, 2, 3])), 0x010203);
    assert_eq!(color_code(Some([0xFF, 0xFF, 0xFF])), 0xFFFFFF);
    assert_eq!(color_code(None), -1);
}

#[test]
fn color_from_code_unpacks() {
    assert_eq!(color_from_code(0x98FB98), Color { r: 0x98, g: 0xFB, b: 0x98, a: 255 });
    assert_eq!(color_from_code(0), Color { r: 0, g: 0, b: 0, a: 255 });
}

#[test]
fn color_code_round_trip() {
    for c in [[0u8, 0, 0], [1, 2, 3], [0xFF, 0x80, 0x01], [0x12, 0x34, 0x56]] {
        let code = color_code(Some(c));
        assert_eq!(color_from_code(code), Color::rgb(c[0], c[1], c[2]));
    }
}

#[test]
fn parse_color_text_cases() {
    assert_eq!(parse_color_text("DDA0DD"), Some([0xDD, 0xA0, 0xDD]));
    assert_eq!(parse_color_text("dda0dd"), Some([0xDD, 0xA0, 0xDD]));
    assert_eq!(parse_color_text("F00"), Some([0xFF, 0x00, 0x00]));
    assert_eq!(parse_color_text("F0FFFF80"), Some([0xF0, 0xFF, 0xFF]));
    assert_eq!(parse_color_text("zzzzzz"), None);
    assert_eq!(parse_color_text(""), None);
    assert_eq!(parse_color_text("#FFFFFF"), None);
}

#[test]
fn color_text_round_trip() {
    for c in [[0u8, 0, 0], [0xAB, 0xCD, 0xEF], [9, 10, 255]] {
        assert_eq!(parse_color_text(&color_hex_text(c)), Some(c));
    }
}

#[test]
fn filament_display() {
    let f = fil(3, "PolyLite Red", "Polymaker", Color::rgb(255, 0, 0), &[]);
    assert_eq!(f.display(), "Polymaker PolyLite Red");
    assert_eq!(f.display_color(), "#FF0000");
}

#[test]
fn filament_box_and_stack_colors() {
    let base = Color::rgb(1, 1, 1);
    let c0 = Color::rgb(2, 2, 2);
    let c1 = Color::rgb(3, 3, 3);
    let none = fil(1, "a", "b", base, &[]);
    assert_eq!(none.box_colors(), (None, None, base));
    assert_eq!(none.stack_colors(), Some(vec![base]));
    let two = fil(1, "a", "b", base, &[c0, c1]);
    assert_eq!(two.box_colors(), (Some(c1), Some(c0), base));
    assert_eq!(two.stack_colors(), Some(vec![base, c0, c1]));
    let three = fil(1, "a", "b", base, &[c0, c1, c0]);
    assert_eq!(three.stack_colors(), None);
}

#[test]
fn filament_from_row_reads_optional_colors() {
    let f = filament_from_row(
        7,
        "n".to_string(),
        "m".to_string(),
        0xFF0000,
        -1,
        0x00FF00,
        "PETG".to_string(),
        "notes".to_string(),
    );
    assert_eq!(f.id, 7);
    assert_eq!(f.color_base, Color::rgb(255, 0, 0));
    assert_eq!(f.colors, vec![Color::rgb(0, 255, 0)]);
    assert_eq!(f.material, "PETG");
    let g = filament_from_row(8, "n".into(), "m".into(), 0, 0x0000FF, 0x010101, "".into(), "".into());
    assert_eq!(g.colors, vec![Color::rgb(0, 0, 255), Color::rgb(1, 1, 1)]);
}

#[test]
fn filament_same_as_and_clone() {
    let f = fil(1, "a", "b", Color::rgb(1, 2, 3), &[Color::rgb(4, 5, 6)]);
    let g = f.clone();
    assert!(f.same_as(&g));
    let h = fil(1, "a", "b", Color::rgb(1, 2, 3), &[]);
    assert!(!f.same_as(&h));
}

#[test]
fn filament_map_from_list_later_wins() {
    let xs = vec![
        (1, fil(1, "first", "x", Color::rgb(0, 0, 0), &[])),
        (2, fil(2, "two", "x", Color::rgb(0, 0, 0), &[])),
        (1, fil(1, "again", "x", Color::rgb(0, 0, 0), &[])),
    ];
    let m = filament_map_from_list(&xs);
    assert_eq!(m.filaments.len(), 2);
    assert_eq!(m.get(&1).unwrap().name, "again");
    assert_eq!(m.get(&2).unwrap().name, "two");
    assert!(m.get(&3).is_none());
}

#[test]
fn filament_map_new_and_get() {
    let mut hm = HashMap::new();
    hm.insert(5, fil(5, "five", "x", Color::rgb(0, 0, 0), &[]));
    let m = FilamentMap::new(hm);
    assert_eq!(m.get(&5).unwrap().name, "five");
    assert!(FilamentMap::empty().get(&5).is_none());
}

#[test]
fn picker_choice_and_text() {
    let mut p = FilamentPicker::default();
    assert!(p.selected().is_none());
    assert_eq!(p.filament_id(), None);
    let id = p.id;
    p.set_selected(Some(fil(9, "Galaxy Black", "Prusa", Color::rgb(0, 0, 0), &[])));
    assert_eq!(p.filament_id(), Some(9));
    assert_eq!(p.to_saved(), Some(9));
    assert_eq!(p.buf, "Galaxy Black");
    assert_eq!(p.id, id);
    p.set_buf("typed".to_string());
    assert_eq!(p.buf, "typed");
    assert_eq!(p.filament_id(), Some(9));
    p.reset();
    assert_eq!(p.filament_id(), None);
    assert_eq!(p.buf, "");
    p.set_selected(None);
    assert_eq!(p.buf, "");
}
