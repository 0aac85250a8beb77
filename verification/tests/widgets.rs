use xeneon_core::clock::{city_timezone, clock_date_text, clock_fields, day_key, default_city, display_hour, meridiem_key, month_key};
use xeneon_core::dummy::color_hex;
use xeneon_core::i18n::Catalog;
use xeneon_core::media::{
    active_changed, format_seconds, is_player_bus_name, pick_active_player, play_button_look, track_texts, truncate,
};
use xeneon_core::network::{
    counter_delta, default_interface, direction_bytes, directional_tick, display_label, effective_interface_name, is_manual, is_vpn_like, network_tick,
    push_capped, rate_deltas, read_interfaces, vpn_active, Direction,
};
use xeneon_core::pins::{PinnedCaption, SavedText};
use xeneon_core::sensors::{auto_pick_sensor, current_value, effective_sensor, sensor_display_name};
use xeneon_core::fetch::FetchGeneration;
use xeneon_core::shortcuts::{
    first_free_cell, in_grid, is_known_kind, place_saved_icons, shortcut_display_name, ShortcutIcon,
};
use xeneon_core::weather::{condition_look, format_location, weather_code_info, FetchStatus};
use xeneon_core::youtube::{start_state, HOME_URL};

#[test]
fn twelve_hour_clock_shows_twelve_for_midnight_and_noon() {
    assert_eq!(display_hour(0, true), 12);
    assert_eq!(display_hour(12, true), 12);
    assert_eq!(display_hour(13, true), 1);
    assert_eq!(display_hour(13, false), 13);
    assert_eq!(meridiem_key(11), "widgets.clock.am");
    assert_eq!(meridiem_key(12), "widgets.clock.pm");
}

#[test]
fn clock_fields_have_two_digits() {
    assert_eq!(clock_fields(7, 5, 9, false), ("07".to_string(), "05".to_string(), "09".to_string()));
    assert_eq!(clock_fields(0, 30, 59, true), ("12".to_string(), "30".to_string(), "59".to_string()));
}

#[test]
fn offered_cities_map_to_their_time_zones() {
    assert_eq!(city_timezone("widgets.clock.cities.beijing"), Some("Asia/Shanghai"));
    assert_eq!(city_timezone("widgets.clock.cities.paris"), Some("Europe/Paris"));
    assert_eq!(city_timezone("widgets.clock.cities.atlantis"), None);
    assert_eq!(default_city(), ("widgets.clock.cities.los_angeles", "America/Los_Angeles"));
    assert_eq!(day_key(0), "mon");
    assert_eq!(day_key(6), "sun");
    assert_eq!(month_key(11), "dec");
}

#[test]
fn clock_date_line_uses_the_catalog_templates() {
    let fr = Catalog::from_json_str(
        r#"{"widgets.clock.date_long": "{day} {day_num} {month} {year}",
            "widgets.clock.date_short": "{day} {day_num} {month}",
            "widgets.clock.days_long.wed": "mercredi",
            "widgets.clock.months_long.sep": "septembre",
            "widgets.clock.days_short.wed": "mer.",
            "widgets.clock.months_short.sep": "sept."}"#,
    );
    let none = Catalog::default();
    assert_eq!(clock_date_text(&fr, &none, true, 2, 9, 8, 2026), "mercredi 9 septembre 2026");
    assert_eq!(clock_date_text(&fr, &none, false, 2, 9, 8, 2026), "mer. 9 sept.");
    assert_eq!(
        clock_date_text(&none, &none, false, 0, 1, 0, 2026),
        "widgets.clock.date_short"
    );
}

#[test]
fn preset_colors_tell_sizes_apart() {
    assert_eq!(color_hex("S"), "#993C1D");
    assert_eq!(color_hex("SSX"), "#3B6D11");
    assert_eq!(color_hex("XL"), "#333333");
}

#[test]
fn long_titles_are_cut_with_an_ellipsis() {
    assert_eq!(truncate("short", 20), "short");
    assert_eq!(truncate("abcdef", 4), "abc…");
    assert_eq!(truncate("ab  cdef", 4), "ab…");
    assert_eq!(truncate("abc", 0), "…");
}

#[test]
fn track_positions_read_as_minutes_and_seconds() {
    assert_eq!(format_seconds(0), "0:00");
    assert_eq!(format_seconds(65), "1:05");
    assert_eq!(format_seconds(3725), "62:05");
}

#[test]
fn the_playing_player_is_shown_first() {
    let s = |v: &[&str]| v.iter().map(|x| x.to_string()).collect::<Vec<String>>();
    assert_eq!(pick_active_player(&s(&["Paused", "Playing", "Playing"])), Some(1));
    assert_eq!(pick_active_player(&s(&["Paused", "Stopped"])), Some(0));
    assert_eq!(pick_active_player(&Vec::new()), None);
    assert!(is_player_bus_name("org.mpris.MediaPlayer2.spotify"));
    assert!(!is_player_bus_name("org.freedesktop.DBus"));
    assert!(active_changed(Some("a"), Some("b")));
    assert!(!active_changed(Some("a"), Some("a")));
    assert!(!active_changed(None, None));
    assert!(active_changed(None, Some("a")));
}

const NET_DEV: &str = "Inter-|   Receive                                                |  Transmit\n face |bytes    packets errs drop fifo frame compressed multicast|bytes    packets errs drop fifo colls carrier compressed\n    lo: 1000      10    0    0    0     0          0         0     1000      10    0    0    0     0       0          0\n  eth0: 123456    100    0    0    0     0          0         0    654321     90    0    0    0     0       0          0\n   wg0: 5 1 0 0 0 0 0 0 6 1 0 0 0 0 0 0\n";

#[test]
fn interfaces_are_read_from_net_dev() {
    let ifs = read_interfaces(NET_DEV);
    assert_eq!(
        ifs,
        vec![("eth0".to_string(), 123456, 654321), ("wg0".to_string(), 5, 6)]
    );
    assert!(vpn_active(&ifs));
    assert!(is_vpn_like("tun0"));
    assert!(!is_vpn_like("eth0"));
}

#[test]
fn default_route_interface_comes_from_the_routing_table() {
    let route = "Iface\tDestination\tGateway\tFlags\tRefCnt\tUse\tMetric\tMask\t\tMTU\tWindow\tIRTT\nwlan0\t0000A8C0\t00000000\t0001\t0\t0\t600\t00FFFFFF\t0\t0\t0\neth0\t00000000\t0100A8C0\t0003\t0\t0\t100\t00000000\t0\t0\t0\n";
    assert_eq!(default_interface(route), Some("eth0".to_string()));
    assert_eq!(default_interface("Iface\tDestination\n"), None);
}

#[test]
fn effective_interface_prefers_pin_then_default_route_then_first() {
    let ifs = read_interfaces(NET_DEV);
    assert_eq!(effective_interface_name(Some("wg0"), Some("eth0"), &ifs), Some("wg0".to_string()));
    assert_eq!(effective_interface_name(None, Some("eth0"), &ifs), Some("eth0".to_string()));
    assert_eq!(effective_interface_name(None, Some("wlan9"), &ifs), Some("eth0".to_string()));
    assert_eq!(effective_interface_name(None, Some("lo"), &ifs), Some("eth0".to_string()));
    assert_eq!(effective_interface_name(None, None, &[]), None);
}

#[test]
fn caption_uses_custom_label_only_while_pinned() {
    assert_eq!(display_label(true, Some("Box"), Some("eth0"), "Network"), "Box");
    assert_eq!(display_label(false, Some("Box"), Some("eth0"), "Network"), "eth0");
    assert_eq!(display_label(true, Some(""), None, "Network"), "Network");
}

#[test]
fn rates_need_a_previous_sample_of_the_same_interface() {
    assert_eq!(rate_deltas(Some(("eth0", 100, 50)), "eth0", 160, 70), Some((60, 20)));
    assert_eq!(rate_deltas(Some(("eth0", 100, 50)), "wlan0", 160, 70), None);
    assert_eq!(rate_deltas(Some(("eth0", 100, 50)), "eth0", 90, 70), None);
    assert_eq!(rate_deltas(None, "eth0", 1, 1), None);
    assert_eq!(counter_delta(Some(("eth0", Direction::In, 10)), "eth0", Direction::In, 25), Some(15));
    assert_eq!(counter_delta(Some(("eth0", Direction::Out, 10)), "eth0", Direction::In, 25), None);
}

#[test]
fn history_keeps_only_the_newest_samples() {
    let mut h: Vec<u32> = vec![1, 2, 3];
    push_capped(&mut h, 4, 3);
    assert_eq!(h, vec![2, 3, 4]);
    push_capped(&mut h, 5, 5);
    assert_eq!(h, vec![2, 3, 4, 5]);
    push_capped(&mut h, 6, 0);
    assert!(h.is_empty());
}

#[test]
fn direction_round_trips_through_its_name() {
    assert_eq!(Direction::from_str(Direction::Out.as_str()), Direction::Out);
    assert_eq!(Direction::from_str("in"), Direction::In);
    assert_eq!(Direction::from_str("sideways"), Direction::In);
    assert_eq!(Direction::In.arrow(), "↓");
    assert!(is_manual(&[None, Some(3)], 1));
    assert!(!is_manual(&[None, Some(3)], 0));
    assert!(!is_manual::<u8>(&[], 5));
}

fn reading(chip: &str, label: &str, milli: i64) -> (String, String, i64) {
    (chip.to_string(), label.to_string(), milli)
}

#[test]
fn cpu_sensor_is_picked_by_chip_then_whole_cpu_label() {
    let sensors = vec![
        reading("nvme", "Composite", 40000),
        reading("k10temp", "Tccd1", 50000),
        reading("k10temp", "TCTL", 55000),
    ];
    assert_eq!(auto_pick_sensor(&sensors), Some(("k10temp".to_string(), "TCTL".to_string())));
    let other = vec![reading("nvme", "Composite", 40000), reading("acpitz", "", 30000)];
    assert_eq!(auto_pick_sensor(&other), Some(("acpitz".to_string(), String::new())));
    let unknown = vec![reading("nvme", "Composite", 40000)];
    assert_eq!(auto_pick_sensor(&unknown), Some(("nvme".to_string(), "Composite".to_string())));
    assert_eq!(auto_pick_sensor(&[]), None);
}

#[test]
fn sensor_names_and_values() {
    assert_eq!(sensor_display_name("k10temp", "Tctl"), "k10temp (Tctl)");
    assert_eq!(sensor_display_name("acpitz", ""), "acpitz");
    let sensors = vec![reading("k10temp", "Tctl", 55000), reading("k10temp", "Tctl", 1)];
    assert_eq!(current_value("k10temp", "Tctl", &sensors), Some(55000));
    assert_eq!(current_value("k10temp", "Tdie", &sensors), None);
    assert_eq!(effective_sensor(Some("x"), None, &sensors), (Some("x".to_string()), None));
    assert_eq!(
        effective_sensor(None, None, &sensors),
        (Some("k10temp".to_string()), Some("Tctl".to_string()))
    );
}

#[test]
fn new_shortcuts_fill_the_grid_in_reading_order() {
    assert_eq!(first_free_cell(&[]), Some((0, 0)));
    assert_eq!(first_free_cell(&[(0, 0), (1, 0)]), Some((2, 0)));
    let all: Vec<(i32, i32)> = (0..25).map(|k| (k % 5, k / 5)).collect();
    assert_eq!(first_free_cell(&all), None);
    assert!(in_grid(4, 4));
    assert!(!in_grid(5, 0));
    assert!(is_known_kind("app"));
    assert!(!is_known_kind("web"));
    assert_eq!(shortcut_display_name("", None, Some("org.gnome.Terminal"), None), "org.gnome.Terminal");
    assert_eq!(shortcut_display_name("Mine", Some("Terminal"), None, None), "Mine");
}

#[test]
fn weather_codes_and_locations() {
    assert_eq!(
        weather_code_info(0),
        ("clear", "weather-clear-symbolic", "weather-clear-night-symbolic")
    );
    assert_eq!(weather_code_info(42).0, "unknown");
    assert_eq!(format_location("Paris", "Île-de-France", "France"), "Paris, Île-de-France, France");
    assert_eq!(format_location("Berlin", "Berlin", "Germany"), "Berlin, Germany");
    assert_eq!(format_location("X", "", ""), "X");
}

#[test]
fn video_page_resumes_unless_told_otherwise() {
    assert_eq!(start_state(None, None), (HOME_URL.to_string(), true));
    assert_eq!(start_state(None, Some("https://example.org/v")), ("https://example.org/v".to_string(), true));
    assert_eq!(start_state(Some(false), Some("https://example.org/v")), (HOME_URL.to_string(), false));
    assert_eq!(start_state(Some(true), Some("")), (HOME_URL.to_string(), true));
}

#[test]
fn saved_shortcuts_need_a_position_and_a_known_kind() {
    let s = ShortcutIcon::from_saved(Some(1), Some(2), Some("app"), Some("org.gnome.Terminal"), None, None, None, None)
        .unwrap();
    assert_eq!((s.col, s.row), (1, 2));
    assert_eq!(s.kind, "app");
    assert_eq!(s.app_id, Some("org.gnome.Terminal".to_string()));
    assert_eq!(s.label, "");
    assert!(ShortcutIcon::from_saved(None, Some(2), Some("app"), None, None, None, None, None).is_none());
    assert!(ShortcutIcon::from_saved(Some(1), Some(2), Some("web"), None, None, None, None, None).is_none());
    let big = ShortcutIcon::from_saved(Some(1 << 32 | 3), Some(0), Some("custom"), None, Some("ls"), Some("L"), None, None)
        .unwrap();
    assert_eq!(big.col, 3);
    assert_eq!(big.label, "L");
    let new = ShortcutIcon::new_app(4, 4, "x".to_string());
    assert_eq!(new.kind, "app");
}

#[test]
fn condition_icon_follows_the_request_status() {
    assert_eq!(
        condition_look(FetchStatus::Loaded, 0, false),
        ("weather-clear-night-symbolic", "widgets.weather.conditions.clear".to_string())
    );
    assert_eq!(
        condition_look(FetchStatus::Loaded, 95, true),
        ("weather-storm-symbolic", "widgets.weather.conditions.thunderstorm".to_string())
    );
    assert_eq!(condition_look(FetchStatus::Loading, 0, true), ("weather-clear-symbolic", "widgets.weather.loading".to_string()));
    assert_eq!(
        condition_look(FetchStatus::Failed, 0, true),
        ("weather-severe-alert-symbolic", "widgets.weather.error".to_string())
    );
}

#[test]
fn only_the_latest_request_is_answered() {
    let mut g = FetchGeneration::new();
    let first = g.begin();
    assert!(g.is_current(first));
    let second = g.begin();
    assert!(!g.is_current(first));
    assert!(g.is_current(second));
    assert!(g.can_begin());
}

#[test]
fn one_network_tick_decides_caption_reading_and_deltas() {
    let ifs = read_interfaces(NET_DEV);
    let t = network_tick(None, Some("Box"), Some("eth0"), "Network", &ifs, Some(("eth0", 123000, 654000)));
    assert_eq!(t.effective, Some("eth0".to_string()));
    assert_eq!(t.caption, "eth0");
    assert!(t.vpn);
    assert_eq!(t.reading, Some(("eth0".to_string(), 123456, 654321)));
    assert_eq!(t.deltas, Some((456, 321)));

    let pinned = network_tick(Some("wlan0"), Some("Box"), None, "Network", &ifs, None);
    assert_eq!(pinned.caption, "Box");
    assert_eq!(pinned.reading, None);
    assert_eq!(pinned.deltas, None);

    let nothing = network_tick(None, None, None, "Network", &[], None);
    assert_eq!(nothing.effective, None);
    assert_eq!(nothing.caption, "Network");
    assert!(!nothing.vpn);
}

#[test]
fn clock_settings_apply_field_by_field() {
    let mut c = xeneon_core::clock::ClockSettings::defaults();
    assert_eq!(c.city_key, "widgets.clock.cities.los_angeles");
    assert_eq!(c.timezone, "America/Los_Angeles");
    assert!(c.city_visible && c.date_visible && !c.hour_format_12h);

    let partial = xeneon_core::clock::SavedClock {
        city_key: Some("widgets.clock.cities.tokyo".to_string()),
        hour_format_12h: Some(true),
        ..Default::default()
    };
    c.apply_saved(&partial);
    assert_eq!(c.city_key, "widgets.clock.cities.tokyo");
    assert_eq!(c.timezone, "Asia/Tokyo");
    assert!(c.hour_format_12h);
    assert_eq!(c.time_font, "Sans 72");

    let unknown_city = xeneon_core::clock::SavedClock {
        city_key: Some("widgets.clock.cities.atlantis".to_string()),
        ..Default::default()
    };
    c.apply_saved(&unknown_city);
    assert_eq!(c.city_key, "widgets.clock.cities.tokyo");

    let saved = c.to_saved();
    let mut fresh = xeneon_core::clock::ClockSettings::defaults();
    fresh.apply_saved(&saved);
    assert_eq!(fresh.city_key, c.city_key);
    assert_eq!(fresh.timezone, c.timezone);
    assert_eq!(fresh.hour_format_12h, c.hour_format_12h);
}

#[test]
fn saved_pins_apply_only_where_present() {
    let mut p = PinnedCaption::new();
    p.apply_saved(&SavedText::Text("eth0".to_string()), None, &SavedText::Text("Box".to_string()));
    assert_eq!(p.pin, Some("eth0".to_string()));
    assert_eq!(p.custom_label, Some("Box".to_string()));
    p.apply_saved(&SavedText::Absent, None, &SavedText::Absent);
    assert_eq!(p.pin, Some("eth0".to_string()));
    p.apply_saved(&SavedText::Null, None, &SavedText::Text(String::new()));
    assert_eq!(p.pin, None);
    assert_eq!(p.custom_label, None);

    let mut sensor = PinnedCaption::new();
    sensor.apply_saved(&SavedText::Text("k10temp".to_string()), Some("Tctl"), &SavedText::Null);
    assert_eq!(sensor.detail, Some("Tctl".to_string()));
    let (pin, detail, caption) = sensor.to_saved();
    let mut back = PinnedCaption::new();
    back.set_custom_label(Some("x"));
    back.apply_saved(&pin, match &detail { SavedText::Text(t) => Some(t.as_str()), _ => None }, &caption);
    assert_eq!(back.pin, Some("k10temp".to_string()));
    assert_eq!(back.detail, Some("Tctl".to_string()));
    assert_eq!(back.custom_label, None);
}

#[test]
fn a_one_direction_card_tracks_its_own_counter() {
    let reading = ("eth0".to_string(), 10, 20);
    assert_eq!(direction_bytes(&reading, Direction::In), 10);
    assert_eq!(direction_bytes(&reading, Direction::Out), 20);
}

#[test]
fn track_lines_fall_back_and_fit_their_room() {
    let none: Vec<String> = Vec::new();
    assert_eq!(
        track_texts(None, &none, "Unknown title", "Unknown artist"),
        ("Unknown title".to_string(), "Unknown artist".to_string())
    );
    let artists = vec!["Daft Punk".to_string(), "Pharrell Williams".to_string(), "Nile Rodgers".to_string()];
    let (title, artist) = track_texts(Some("Get Lucky (Radio Edit) feat."), &artists, "?", "?");
    assert_eq!(title, "Get Lucky (Radio Ed…");
    assert_eq!(artist, "Daft Punk, Pharrell Williams,…");
    assert_eq!(track_texts(Some(""), &none, "?", "-").0, "?");
    assert_eq!(play_button_look(true), ("media-playback-pause-symbolic", "widgets.audio.pause"));
    assert_eq!(play_button_look(false), ("media-playback-start-symbolic", "widgets.audio.play"));
}

#[test]
fn saved_icons_off_the_grid_or_on_a_taken_cell_are_skipped() {
    let icon = |col: i32, row: i32, id: &str| ShortcutIcon::new_app(col, row, id.to_string());
    let placed = place_saved_icons(vec![icon(0, 0, "a"), icon(5, 0, "off"), icon(0, 0, "dup"), icon(4, 4, "b")]);
    let ids: Vec<&str> = placed.iter().map(|i| i.app_id.as_deref().unwrap()).collect();
    assert_eq!(ids, vec!["a", "b"]);
}

#[test]
fn a_directional_tick_counts_its_own_direction() {
    let ifs = read_interfaces(NET_DEV);
    let (tick, delta, sample) =
        directional_tick(None, None, Some("eth0"), "Network", &ifs, Some(("eth0", Direction::In, 123000)), Direction::In);
    assert_eq!(tick.effective, Some("eth0".to_string()));
    assert_eq!(tick.deltas, None);
    assert_eq!(delta, Some(456));
    assert_eq!(sample, Some(("eth0".to_string(), Direction::In, 123456)));
    let (_, delta, sample) =
        directional_tick(None, None, Some("eth0"), "Network", &ifs, Some(("eth0", Direction::In, 123000)), Direction::Out);
    assert_eq!(delta, None);
    assert_eq!(sample, Some(("eth0".to_string(), Direction::Out, 654321)));
    let (_, delta, sample) = directional_tick(None, None, None, "Network", &[], None, Direction::In);
    assert_eq!((delta, sample), (None, None));
}
