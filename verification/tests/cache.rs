use panopticon::cache::BoundedCache;
use panopticon::icon::{invalidate_cached_app_icon, populate_cached_icon, APP_ICON_CACHE_CAPACITY};
use panopticon::managed::{new_managed_window, ManagedWindow, WindowInfo};

#[test]
fn cache_bounded_cache_evicts_oldest_entry_when_capacity_is_exceeded() {
    let mut cache = BoundedCache::new(2);
    cache.insert("alpha", 1);
    cache.insert("bravo", 2);
    cache.insert("charlie", 3);

    assert_eq!(cache.get_cloned("alpha"), None);
    assert_eq!(cache.get_cloned("bravo"), Some(2));
    assert_eq!(cache.get_cloned("charlie"), Some(3));
}

#[test]
fn cache_bounded_cache_refreshes_recently_accessed_entries() {
    let mut cache = BoundedCache::new(2);
    cache.insert("alpha", 1);
    cache.insert("bravo", 2);

    assert_eq!(cache.get_cloned("alpha"), Some(1));

    cache.insert("charlie", 3);

    assert_eq!(cache.get_cloned("alpha"), Some(1));
    assert_eq!(cache.get_cloned("bravo"), None);
    assert_eq!(cache.get_cloned("charlie"), Some(3));
}

#[test]
fn icon_bounded_cache_evicts_oldest_entry_when_capacity_is_exceeded() {
    let mut cache = BoundedCache::new(2);
    cache.insert("alpha", 1);
    cache.insert("bravo", 2);
    cache.insert("charlie", 3);

    assert_eq!(cache.get_cloned("alpha"), None);
    assert_eq!(cache.get_cloned("bravo"), Some(2));
    assert_eq!(cache.get_cloned("charlie"), Some(3));
}

#[test]
fn icon_bounded_cache_refreshes_recently_accessed_entries() {
    let mut cache = BoundedCache::new(2);
    cache.insert("alpha", 1);
    cache.insert("bravo", 2);

    assert_eq!(cache.get_cloned("alpha"), Some(1));

    cache.insert("charlie", 3);

    assert_eq!(cache.get_cloned("alpha"), Some(1));
    assert_eq!(cache.get_cloned("bravo"), None);
    assert_eq!(cache.get_cloned("charlie"), Some(3));
}

#[test]
fn invalidating_shared_icon_cache_removes_entry() {
    let mut cache: BoundedCache<Option<u32>> = BoundedCache::new(APP_ICON_CACHE_CAPACITY);
    cache.clear();
    cache.insert("demo", None);
    assert_eq!(cache.len(), 1);

    invalidate_cached_app_icon(&mut cache, "demo");

    assert_eq!(cache.get_cloned("demo"), None);
    assert_eq!(cache.len(), 0);
}

#[test]
fn reinserting_a_key_keeps_one_entry_with_the_new_value() {
    let mut cache = BoundedCache::new(3);
    cache.insert("alpha", 1);
    cache.insert("alpha", 5);
    assert_eq!(cache.len(), 1);
    assert_eq!(cache.get_cloned("alpha"), Some(5));
}

#[test]
fn zero_capacity_cache_stores_nothing() {
    let mut cache = BoundedCache::new(0);
    cache.insert("alpha", 1);
    assert_eq!(cache.len(), 0);
    assert_eq!(cache.get_cloned("alpha"), None);
}

#[test]
fn removing_returns_the_value_and_forgets_the_key() {
    let mut cache = BoundedCache::new(2);
    cache.insert("alpha", 7);
    assert_eq!(cache.remove("alpha"), Some(7));
    assert_eq!(cache.remove("alpha"), None);
    assert_eq!(cache.len(), 0);
}

#[test]
fn cache_never_holds_more_than_its_capacity() {
    let mut cache = BoundedCache::new(3);
    for (i, key) in ["a", "b", "c", "d", "e"].iter().enumerate() {
        cache.insert(key, i);
        assert!(cache.len() <= 3);
    }
    assert_eq!(cache.get_cloned("a"), None);
    assert_eq!(cache.get_cloned("b"), None);
    assert_eq!(cache.get_cloned("e"), Some(4));
}

fn info(hwnd: isize, app_id: &str) -> WindowInfo {
    WindowInfo {
        hwnd,
        title: "Title".to_owned(),
        app_id: app_id.to_owned(),
        process_name: "proc".to_owned(),
        process_path: None,
        class_name: "Class".to_owned(),
        monitor_name: "DISPLAY1".to_owned(),
    }
}

#[test]
fn populate_cached_icon_renders_once_per_application() {
    let mut cache: BoundedCache<Option<u32>> = BoundedCache::new(APP_ICON_CACHE_CAPACITY);
    let mut first: ManagedWindow<(), u32> = new_managed_window(info(1, "app:a"));
    let mut second: ManagedWindow<(), u32> = new_managed_window(info(2, "app:a"));
    let mut renders = 0;

    populate_cached_icon(&mut first, &mut cache, |_| {
        renders += 1;
        Some(42)
    });
    populate_cached_icon(&mut second, &mut cache, |_| {
        renders += 1;
        Some(99)
    });

    assert_eq!(renders, 1);
    assert_eq!(first.cached_icon, Some(42));
    assert_eq!(second.cached_icon, Some(42));
    assert_eq!(cache.get_cloned("app:a"), Some(Some(42)));
}

#[test]
fn populate_cached_icon_keeps_an_existing_icon() {
    let mut cache: BoundedCache<Option<u32>> = BoundedCache::new(APP_ICON_CACHE_CAPACITY);
    let mut window: ManagedWindow<(), u32> = new_managed_window(info(1, "app:a"));
    window.cached_icon = Some(3);
    populate_cached_icon(&mut window, &mut cache, |_| Some(4));
    assert_eq!(window.cached_icon, Some(3));
    assert_eq!(cache.len(), 0);
}

#[test]
fn invalidated_icon_is_rendered_again() {
    let mut cache: BoundedCache<Option<u32>> = BoundedCache::new(APP_ICON_CACHE_CAPACITY);
    let mut window: ManagedWindow<(), u32> = new_managed_window(info(1, "app:a"));
    populate_cached_icon(&mut window, &mut cache, |_| Some(1));
    invalidate_cached_app_icon(&mut cache, "app:a");
    window.cached_icon = None;
    populate_cached_icon(&mut window, &mut cache, |_| Some(2));
    assert_eq!(window.cached_icon, Some(2));
}
