use xeneon_core::config::{config_dir, config_file, pages_dir, widgets_dir, Config, DefaultWidgetAppearance};

#[test]
fn defaults_match_a_fresh_install() {
    let c = Config::default();
    assert_eq!(c.fullscreen_shortcut_hint, "<Super>f");
    assert_eq!(c.indicator_hide_delay_seconds, 2);
    assert_eq!(c.indicator_opacity, 55);
    assert_eq!(c.language, "fr");
    assert_eq!(c.accent_color, "#7e57c2");
    assert!(!c.accent_follow_system);
    assert!(!c.shortcuts_host_access);
    assert_eq!(c.default_widget_appearance.bg_color, "#242424");
    assert_eq!(c.app_background_image_path, None);
}

#[test]
fn a_missing_or_unreadable_file_loads_the_defaults() {
    let c = Config::from_load_result(None);
    assert_eq!(c.language, "fr");
    let mut custom = Config::default();
    custom.language = "en".to_string();
    assert_eq!(Config::from_load_result(Some(custom)).language, "en");
}

#[test]
fn settings_directory_prefers_an_absolute_xdg_config_home() {
    assert_eq!(config_dir(Some("/xdg"), "/home/me"), "/xdg/xeneon-dashboard-rs");
    assert_eq!(config_dir(Some("relative"), "/home/me"), "/home/me/.config/xeneon-dashboard-rs");
    assert_eq!(config_dir(None, "/home/me"), "/home/me/.config/xeneon-dashboard-rs");
    assert_eq!(config_dir(None, ""), ".config/xeneon-dashboard-rs");
}

#[test]
fn files_live_inside_the_settings_directory() {
    assert_eq!(widgets_dir("/c"), "/c/widgets");
    assert_eq!(pages_dir("/c/"), "/c/pages");
    assert_eq!(config_file("/c"), "/c/config.json");
}

#[test]
fn preset_default_is_opaque_and_borderless() {
    let d = DefaultWidgetAppearance::default();
    assert_eq!(f64::from_bits(d.opacity_bits), 1.0);
    assert!(!d.border_enabled);
    assert_eq!(d.border_width, 2);
    assert_eq!(d.border_color, "#ffffff");
}
