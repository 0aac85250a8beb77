use std::hash::{Hash, Hasher};
use xeneon_core::assets::{asset_file_name, hashed_file_name};
use xeneon_core::backup::{is_top_level_config_entry, looks_like_config_archive};

#[test]
fn top_level_config_is_recognised_however_it_is_spelled() {
    assert!(is_top_level_config_entry("config.json"));
    assert!(is_top_level_config_entry("./config.json"));
    assert!(is_top_level_config_entry(".//config.json/"));
    assert!(!is_top_level_config_entry("nested/config.json"));
    assert!(!is_top_level_config_entry("/config.json"));
    assert!(!is_top_level_config_entry("../config.json"));
    assert!(!is_top_level_config_entry("config.json.bak"));
}

#[test]
fn archives_without_a_top_level_config_are_refused() {
    let with = vec!["./".to_string(), "./pages".to_string(), "./config.json".to_string()];
    assert!(looks_like_config_archive(&with));
    let without = vec!["./".to_string(), "./nested/config.json".to_string()];
    assert!(!looks_like_config_archive(&without));
    assert!(!looks_like_config_archive(&Vec::new()));
}

#[test]
fn assets_are_named_after_their_hash() {
    assert_eq!(hashed_file_name(0x1234, Some("png")), "0000000000001234.png");
    assert_eq!(hashed_file_name(u64::MAX, None), "ffffffffffffffff");
    assert_ne!(hashed_file_name(1, Some("jpg")), hashed_file_name(2, Some("jpg")));
}

#[test]
fn a_picture_is_named_after_the_hash_of_its_bytes() {
    let bytes = b"pretend image bytes".to_vec();
    let mut hasher = std::collections::hash_map::DefaultHasher::new();
    bytes.hash(&mut hasher);
    let expected = format!("{:016x}.png", hasher.finish());
    assert_eq!(asset_file_name(&bytes, Some("png")), expected);
    assert_eq!(asset_file_name(&bytes, Some("png")), asset_file_name(&bytes.clone(), Some("png")));
    assert_ne!(asset_file_name(b"one", None), asset_file_name(b"two", None));
    assert_eq!(asset_file_name(b"one", None).len(), 16);
}
