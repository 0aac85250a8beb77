use xeneon_core::appearance::{TouchedField, TouchedSet, WidgetAppearance, FULL_OPACITY_BITS};
use xeneon_core::config::DefaultWidgetAppearance;

#[test]
fn untouched_by_default_and_after_reset() {
    let mut appearance = WidgetAppearance::default();
    assert!(!appearance.has_customizations());
    appearance.touched.insert(TouchedField::Bg);
    appearance.bg_color = "#123456".to_string();
    assert!(appearance.has_customizations());
    appearance.reset();
    assert!(!appearance.has_customizations());
    assert_eq!(appearance.bg_color, "#242424");
}

#[test]
fn config_default_is_touched_so_it_actually_renders() {
    let defaults = DefaultWidgetAppearance::default();
    let appearance = WidgetAppearance::from_config_default(&defaults);
    assert!(appearance.has_customizations());
    assert!(appearance.touched.contains(&TouchedField::Bg));
    assert!(appearance.touched.contains(&TouchedField::Border));
}

#[test]
fn default_appearance_is_the_plain_card() {
    let a = WidgetAppearance::default();
    assert_eq!(f64::from_bits(a.opacity_bits), 1.0);
    assert_eq!(a.opacity_bits, FULL_OPACITY_BITS);
    assert_eq!(a.bg_image_path, None);
    assert!(!a.border_enabled);
    assert_eq!(a.border_width, 2);
    assert_eq!(a.border_color, "#ffffff");
    assert!(a.rounded);
}

#[test]
fn config_default_copies_the_preset_and_keeps_corners_untouched() {
    let preset = DefaultWidgetAppearance {
        opacity_bits: 0.5f64.to_bits(),
        bg_color: "#000000".to_string(),
        border_enabled: true,
        border_width: 4,
        border_color: "#ff0000".to_string(),
    };
    let a = WidgetAppearance::from_config_default(&preset);
    assert_eq!(f64::from_bits(a.opacity_bits), 0.5);
    assert_eq!(a.bg_color, "#000000");
    assert!(a.border_enabled);
    assert_eq!(a.border_width, 4);
    assert_eq!(a.border_color, "#ff0000");
    assert!(!a.touched.contains(&TouchedField::Corner));
    assert!(a.rounded);
}

#[test]
fn touched_set_behaves_as_a_set() {
    let mut s = TouchedSet::new();
    assert!(s.is_empty());
    assert!(s.insert(TouchedField::Corner));
    assert!(!s.insert(TouchedField::Corner));
    assert_eq!(s.to_vec(), vec![TouchedField::Corner]);
    assert!(s.remove(&TouchedField::Corner));
    assert!(!s.remove(&TouchedField::Corner));
    assert!(s.is_empty());
}

#[test]
fn touched_fields_are_named_in_lowercase() {
    assert_eq!(TouchedField::Bg.as_str(), "bg");
    assert_eq!(TouchedField::Border.as_str(), "border");
    assert_eq!(TouchedField::Corner.as_str(), "corner");
}
