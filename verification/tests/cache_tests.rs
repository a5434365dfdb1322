use wrp_native::cache::{cache_file_path, lookup_colors, make_cache_entry, refresh_colors, str_eq,
    Refresh};

const GOOD: &str = "{\"wallpaper_path\":\"/w.png\",\"wallpaper_mtime\":100,\"colors\":{\"accent\":\"#ff0000\",\"primary\":\"#112233\"}}";

#[test]
fn matching_path_and_mtime_hit() {
    let colors = lookup_colors(Some(GOOD), "/w.png", Some(100)).unwrap();
    assert_eq!(colors.len(), 2);
    assert_eq!(colors[0].name, "accent");
    assert_eq!(colors[0].value, "#ff0000");
    assert_eq!(colors[1].name, "primary");
    assert_eq!(colors[1].value, "#112233");
}

#[test]
fn changed_mtime_misses() {
    assert!(lookup_colors(Some(GOOD), "/w.png", Some(101)).is_none());
}

#[test]
fn changed_path_misses_with_same_mtime() {
    assert!(lookup_colors(Some(GOOD), "/other.png", Some(100)).is_none());
}

#[test]
fn unknown_current_mtime_misses() {
    assert!(lookup_colors(Some(GOOD), "/w.png", None).is_none());
}

#[test]
fn absent_cache_text_misses() {
    assert!(lookup_colors(None, "/w.png", Some(100)).is_none());
}

#[test]
fn malformed_cache_is_a_clean_miss() {
    assert!(lookup_colors(Some("{not json"), "/w.png", Some(100)).is_none());
    assert!(lookup_colors(Some(""), "/w.png", Some(100)).is_none());
    assert!(lookup_colors(Some("[1,2,3]"), "/w.png", Some(100)).is_none());
}

#[test]
fn truncated_cache_is_a_clean_miss() {
    let cut = &GOOD[..GOOD.len() / 2];
    assert!(lookup_colors(Some(cut), "/w.png", Some(100)).is_none());
}

#[test]
fn missing_field_is_a_miss() {
    let text = "{\"wallpaper_path\":\"/w.png\",\"colors\":{}}";
    assert!(lookup_colors(Some(text), "/w.png", Some(100)).is_none());
}

#[test]
fn non_string_color_value_is_a_miss() {
    let text = "{\"wallpaper_path\":\"/w.png\",\"wallpaper_mtime\":100,\"colors\":{\"a\":5}}";
    assert!(lookup_colors(Some(text), "/w.png", Some(100)).is_none());
}

#[test]
fn extra_fields_are_tolerated() {
    let text = "{\"wallpaper_path\":\"/w.png\",\"wallpaper_mtime\":100,\"colors\":{\"a\":\"#fff\"},\"spare\":1}";
    let colors = lookup_colors(Some(text), "/w.png", Some(100)).unwrap();
    assert_eq!(colors.len(), 1);
    assert_eq!(colors[0].name, "a");
    assert_eq!(colors[0].value, "#fff");
}

#[test]
fn made_entry_carries_its_fields() {
    let colors = lookup_colors(Some(GOOD), "/w.png", Some(100)).unwrap();
    let entry = make_cache_entry("/new.png", 555, colors);
    assert_eq!(entry.wallpaper_path, "/new.png");
    assert_eq!(entry.wallpaper_mtime, 555);
    assert_eq!(entry.colors.len(), 2);
}

#[test]
fn no_report_refreshes_nothing() {
    assert!(matches!(refresh_colors("/w.png", Some(7), None), Refresh::Unavailable));
}

#[test]
fn unusable_report_refreshes_nothing() {
    assert!(matches!(
        refresh_colors("/w.png", Some(7), Some("not json")),
        Refresh::Unavailable
    ));
}

#[test]
fn good_report_with_known_mtime_is_persisted() {
    let report = "{\"colors\":{\"primary\":{\"dark\":\"#112233\"}}}";
    match refresh_colors("/w.png", Some(7), Some(report)) {
        Refresh::Persisted(entry) => {
            assert_eq!(entry.wallpaper_path, "/w.png");
            assert_eq!(entry.wallpaper_mtime, 7);
            assert_eq!(entry.colors.len(), 1);
            assert_eq!(entry.colors[0].name, "primary");
            assert_eq!(entry.colors[0].value, "#112233");
        }
        _ => panic!("expected a persisted entry"),
    }
}

#[test]
fn good_report_without_mtime_stays_volatile() {
    let report = "{\"colors\":{\"primary\":\"#aabbcc\"}}";
    match refresh_colors("/w.png", None, Some(report)) {
        Refresh::Volatile(colors) => {
            assert_eq!(colors.len(), 1);
            assert_eq!(colors[0].value, "#aabbcc");
        }
        _ => panic!("expected volatile colors"),
    }
}

#[test]
fn populated_entry_answers_the_next_call() {
    let report = "{\"colors\":{\"primary\":\"#112233\"}}";
    let entry = match refresh_colors("/w.png", Some(42), Some(report)) {
        Refresh::Persisted(e) => e,
        _ => panic!("expected a persisted entry"),
    };
    let stored = format!(
        "{{\"wallpaper_path\":\"{}\",\"wallpaper_mtime\":{},\"colors\":{{\"{}\":\"{}\"}}}}",
        entry.wallpaper_path, entry.wallpaper_mtime, entry.colors[0].name, entry.colors[0].value
    );
    let colors = lookup_colors(Some(&stored), "/w.png", Some(42)).unwrap();
    assert_eq!(colors.len(), 1);
    assert_eq!(colors[0].name, "primary");
    assert_eq!(colors[0].value, "#112233");
    assert!(lookup_colors(Some(&stored), "/w.png", Some(43)).is_none());
    assert!(lookup_colors(Some(&stored), "/other.png", Some(42)).is_none());
}

#[test]
fn str_eq_compares_characters() {
    assert!(str_eq("", ""));
    assert!(str_eq("/w.png", "/w.png"));
    assert!(!str_eq("/w.png", "/w.PNG"));
    assert!(!str_eq("a", "ab"));
}

#[test]
fn cache_file_path_ends_with_fixed_subpath() {
    if let Some(p) = cache_file_path() {
        assert!(p.ends_with("/matuwrap/colors.json"));
    }
}
