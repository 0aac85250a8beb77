use xeneon_core::page_state::{self, PageState};
use xeneon_core::persistence::{json_file_stem, state_file, tmp_path};
use xeneon_core::widget_state::{load_all, update_page_index, WidgetState};

fn placed(kind: &str, page_index: usize, x: i32, y: i32) -> WidgetState {
    WidgetState { kind: kind.to_string(), page_index, x, y, w: 100, h: 100, ..WidgetState::default() }
}

#[test]
fn loaded_widgets_are_ordered_by_page_then_y_then_x() {
    let files = vec![
        ("c".to_string(), Some(placed("c", 0, 100, 50))),
        ("a".to_string(), Some(placed("a", 0, 0, 50))),
        ("b".to_string(), Some(placed("b", 0, 0, 0))),
        ("d".to_string(), Some(placed("d", 1, 0, 0))),
    ];
    let loaded = load_all(files);
    let ids: Vec<&str> = loaded.iter().map(|s| s.id.as_str()).collect();
    assert_eq!(ids, vec!["b", "a", "c", "d"]);
}

#[test]
fn unparsable_files_are_skipped_and_ids_come_from_file_names() {
    let mut inner = placed("dummy_s", 0, 0, 0);
    inner.id = "ignored".to_string();
    let files = vec![("broken".to_string(), None), ("fine".to_string(), Some(inner))];
    let loaded = load_all(files);
    assert_eq!(loaded.len(), 1);
    assert_eq!(loaded[0].id, "fine");
    assert_eq!(loaded[0].kind, "dummy_s");
}

#[test]
fn nothing_saved_loads_nothing() {
    assert!(load_all(Vec::new()).is_empty());
}

#[test]
fn equal_positions_keep_their_file_order() {
    let files = vec![("x".to_string(), Some(placed("x", 2, 5, 5))), ("y".to_string(), Some(placed("y", 2, 5, 5)))];
    let loaded = load_all(files);
    assert_eq!(loaded[0].id, "x");
    assert_eq!(loaded[1].id, "y");
}

#[test]
fn reindexing_rewrites_only_the_page_index() {
    let mut s = placed("clock", 3, 10, 20);
    s.content = serde_json::Value::String("paris".to_string());
    let r = update_page_index(s, "abc123", 1);
    assert_eq!(r.id, "abc123");
    assert_eq!(r.page_index, 1);
    assert_eq!((r.x, r.y, r.w, r.h), (10, 20, 100, 100));
    assert_eq!(r.kind, "clock");
    assert_eq!(r.content, serde_json::Value::String("paris".to_string()));
}

#[test]
fn pages_are_ordered_by_index() {
    let p = |i: usize| PageState { page_index: i, ..PageState::default() };
    let files = vec![("p2".to_string(), Some(p(2))), ("bad".to_string(), None), ("p0".to_string(), Some(p(0)))];
    let pages = page_state::load_all(files);
    let ids: Vec<&str> = pages.iter().map(|p| p.id.as_str()).collect();
    assert_eq!(ids, vec!["p0", "p2"]);
}

#[test]
fn state_files_are_named_after_their_identity() {
    assert_eq!(state_file("/c/widgets", "abc123"), "/c/widgets/abc123.json");
    assert_eq!(tmp_path("/c/widgets/abc123.json"), "/c/widgets/abc123.json.tmp");
}

#[test]
fn only_json_files_hold_states() {
    assert_eq!(json_file_stem("abc123.json"), Some("abc123".to_string()));
    assert_eq!(json_file_stem("a.b.json"), Some("a.b".to_string()));
    assert_eq!(json_file_stem("abc123.json.tmp"), None);
    assert_eq!(json_file_stem(".json"), None);
    assert_eq!(json_file_stem("notes"), None);
}
