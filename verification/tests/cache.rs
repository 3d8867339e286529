use purgedb::cache::{copy_list, initial_defaults, FilamentCache};
use purgedb::color::Color;
use purgedb::filament::Filament;

fn fil(id: u32, name: &str) -> Filament {
    Filament::new(id, name.to_string(), "M".to_string(), Color::rgb(0, 0, 0), &[], String::new(), String::new())
}

#[test]
fn cache_reads_only_when_fresh() {
    let mut c = FilamentCache::new();
    assert!(c.is_stale(0));
    assert!(c.cached(1, 0).is_none());
    assert!(c.cached_all(0).is_none());
    c.refresh(vec![(1, fil(1, "a")), (2, fil(2, "b"))]);
    assert!(!c.is_stale(5));
    assert_eq!(c.cached(1, 5).unwrap().name, "a");
    assert!(c.cached(3, 5).is_none());
    assert!(c.cached(1, 30_000_000_001).is_none());
    let (m, l) = c.cached_all(0).unwrap();
    assert_eq!(m.get(&2).unwrap().name, "b");
    assert_eq!(l.iter().map(|(i, _)| *i).collect::<Vec<_>>(), vec![1, 2]);
    c.mark_stale();
    assert!(c.cached(1, 0).is_none());
    assert_eq!(copy_list(&c.list).len(), 2);
}

#[test]
fn initial_defaults_fall_back() {
    assert_eq!(initial_defaults(None), (1, 2));
    assert_eq!(initial_defaults(Some((None, None))), (1, 2));
    assert_eq!(initial_defaults(Some((Some(7), Some(9)))), (9, 7));
    assert_eq!(initial_defaults(Some((Some(7), None))), (1, 7));
}
