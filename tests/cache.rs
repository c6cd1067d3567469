use pyside_cli::cache::{Cache, Category, FingerprintMap};

fn s(x: &str) -> String {
    x.to_string()
}

#[test]
fn empty_cache_is_stale_everywhere() {
    let cache = Cache::new();
    assert!(cache.is_empty());
    assert!(cache.is_stale(Category::Ui, &s("ui/main.ui"), 0));
    assert!(cache.is_stale(Category::Translations, &s("i18n/en_US.ts"), 0));
    assert!(cache.is_stale(Category::Assets, &s("assets/a.png"), 0));
}

#[test]
fn record_makes_equal_fingerprint_fresh_and_later_stale() {
    let mut cache = Cache::new();
    cache.record(Category::Ui, s("ui/main.ui"), 1_000);
    assert!(!cache.is_empty());
    assert!(!cache.is_stale(Category::Ui, &s("ui/main.ui"), 1_000));
    assert!(!cache.is_stale(Category::Ui, &s("ui/main.ui"), 999));
    assert!(cache.is_stale(Category::Ui, &s("ui/main.ui"), 1_001));
    cache.record(Category::Ui, s("ui/main.ui"), 2_000);
    assert!(!cache.is_stale(Category::Ui, &s("ui/main.ui"), 2_000));
    assert_eq!(cache.ui.get(&s("ui/main.ui")), Some(2_000));
    assert_eq!(cache.ui.to_pairs().len(), 1);
}

#[test]
fn categories_are_independent() {
    let mut cache = Cache::new();
    cache.record(Category::Ui, s("same"), 5);
    cache.record(Category::Translations, s("same"), 5);
    cache.record(Category::Assets, s("same"), 5);
    cache.clear(Category::Translations);
    assert!(cache.is_stale(Category::Translations, &s("same"), 5));
    assert!(!cache.is_stale(Category::Ui, &s("same"), 5));
    assert!(!cache.is_stale(Category::Assets, &s("same"), 5));
    cache.record(Category::Ui, s("same"), 1);
    assert!(!cache.is_stale(Category::Assets, &s("same"), 5));
}

#[test]
fn pairs_list_each_key_once() {
    let mut m = FingerprintMap::new();
    m.insert(s("a"), 1);
    m.insert(s("b"), 2);
    m.insert(s("a"), 3);
    let mut pairs = m.to_pairs();
    pairs.sort();
    assert_eq!(pairs, vec![(s("a"), 3), (s("b"), 2)]);
    m.clear();
    assert!(m.is_empty());
}
