use xeneon_core::i18n::{language_entry, language_list, translate, Catalog};

#[test]
fn translate_prefers_active_then_fallback_then_raw_key() {
    let active = Catalog::from_json_str(r#"{"a": "Active A"}"#);
    let fallback = Catalog::from_json_str(r#"{"a": "Fallback A", "b": "Fallback B"}"#);

    assert_eq!(translate(&active, &fallback, "a", &[]), "Active A");
    assert_eq!(translate(&active, &fallback, "b", &[]), "Fallback B");
    assert_eq!(translate(&active, &fallback, "missing", &[]), "missing");
}

#[test]
fn translate_substitutes_named_placeholders() {
    let active = Catalog::from_json_str(r#"{"greeting": "Page {n}"}"#);
    let fallback = Catalog::default();
    assert_eq!(translate(&active, &fallback, "greeting", &[("n", "3")]), "Page 3");
}

#[test]
fn translate_substitutes_every_occurrence_in_order() {
    let active = Catalog::from_json_str(r#"{"k": "{a}-{b}-{a}"}"#);
    let none = Catalog::default();
    assert_eq!(translate(&active, &none, "k", &[("a", "1"), ("b", "{a}")]), "1-{a}-1");
}

#[test]
fn text_that_is_not_a_string_object_gives_an_empty_catalog() {
    let broken = Catalog::from_json_str("{not json");
    assert_eq!(broken.get("a"), None);
    let numbers = Catalog::from_json_str(r#"{"a": 1}"#);
    assert_eq!(numbers.get("a"), None);
    let good = Catalog::from_json_str(r#"{"a": "x"}"#);
    assert_eq!(good.get("a"), Some("x"));
}

#[test]
fn language_name_comes_from_the_special_key() {
    let fr = Catalog::from_json_str(r#"{"_language_name": "Français"}"#);
    assert_eq!(fr.language_name(), Some("Français"));
    assert_eq!(language_entry("fr", &fr), ("fr".to_string(), "Français".to_string()));
    let bare = Catalog::default();
    assert_eq!(bare.language_name(), None);
    assert_eq!(language_entry("xx", &bare), ("xx".to_string(), "xx".to_string()));
}

#[test]
fn languages_are_listed_by_file_name_skipping_bad_files() {
    let files = vec![
        ("fr.json".to_string(), Some(r#"{"_language_name": "Français"}"#.to_string())),
        ("en.json".to_string(), Some(r#"{"hello": "Hello"}"#.to_string())),
        ("broken.json".to_string(), Some("not json".to_string())),
        ("de.json".to_string(), None),
        ("notes.txt".to_string(), Some("{}".to_string())),
        ("en-GB.json".to_string(), Some(r#"{"_language_name": "English (UK)"}"#.to_string())),
    ];
    assert_eq!(
        language_list(&files),
        vec![
            ("en-GB".to_string(), "English (UK)".to_string()),
            ("en".to_string(), "en".to_string()),
            ("fr".to_string(), "Français".to_string()),
        ]
    );
    assert!(language_list(&Vec::new()).is_empty());
}
