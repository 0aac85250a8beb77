use xeneon_core::agenda::{
    bar_color_class, bar_colors, calendar_source_from, date_panel_texts, day_cell_look, event_occurrences,
    format_event_when, format_events_tooltip, group_by_day, has_rrule, header_color, parse_child_node_names,
    parse_dtstart, parse_keyfile_sections, parse_summary_and_dtstart, recurrence_block, unfold_ical_lines,
    CivilDateTime, DtStart, EventInfo,
};
use xeneon_core::agenda::{default_selected_uids, expand_recurring, is_queried, saved_selection};
use xeneon_core::agenda::{calendar_event_entries, event_entries, local_instant, local_start, month_entries, CalendarSource};
use xeneon_core::i18n::Catalog;

/// A weekly repeating all-day event, as the calendar service hands it out:
/// only its first occurrence, with the rule that repeats it.
const ONGLE_ICS: &str = "BEGIN:VEVENT\r\n\
    CREATED:20260721T054157Z\r\n\
    LAST-MODIFIED:20260915T151527Z\r\n\
    DTSTAMP:20260915T151527Z\r\n\
    SUMMARY:Ongle\r\n\
    RRULE:FREQ=WEEKLY;BYDAY=WE\r\n\
    DTSTART;VALUE=DATE:20260722\r\n\
    DTEND;VALUE=DATE:20260723\r\n\
    UID:620e6840-24e0-4ba0-82f1-36ae53d35a8a\r\n\
    END:VEVENT\r\n";

#[test]
fn a_weekly_all_day_event_is_read_with_its_rule() {
    let unfolded = unfold_ical_lines(ONGLE_ICS);
    assert!(has_rrule(&unfolded));
    let (summary, start) = parse_summary_and_dtstart(&unfolded).unwrap();
    assert_eq!(summary, "Ongle");
    assert_eq!(start, DtStart::Date(2026, 7, 22));
    assert_eq!(recurrence_block(&unfolded), "RRULE:FREQ=WEEKLY;BYDAY=WE\nDTSTART;VALUE=DATE:20260722");
}

#[test]
fn expands_a_weekly_recurring_all_day_event() {
    let unfolded = unfold_ical_lines(ONGLE_ICS);
    assert!(has_rrule(&unfolded));
    let (summary, start) = parse_summary_and_dtstart(&unfolded).unwrap();
    assert_eq!(summary, "Ongle");
    assert_eq!(start, DtStart::Date(2026, 7, 22));
    assert!(!matches!(start, DtStart::Utc(_) | DtStart::Zoned(_, _) | DtStart::Floating(_)));

    let start_utc = chrono::DateTime::parse_from_rfc3339("2026-09-01T00:00:00Z").unwrap().timestamp();
    let end_utc = chrono::DateTime::parse_from_rfc3339("2026-10-01T00:00:00Z").unwrap().timestamp();
    let occurrences = expand_recurring(&unfolded, start_utc, end_utc).unwrap();
    let dates: Vec<String> = occurrences
        .into_iter()
        .map(|ts| {
            chrono::DateTime::from_timestamp(ts, 0)
                .unwrap()
                .with_timezone(&chrono::Local)
                .date_naive()
                .format("%Y-%m-%d")
                .to_string()
        })
        .collect();

    // Every Wednesday in September 2026.
    assert_eq!(dates, vec!["2026-09-02", "2026-09-09", "2026-09-16", "2026-09-23", "2026-09-30"]);
}

#[test]
fn a_rule_that_does_not_parse_gives_no_expansion() {
    let u = unfold_ical_lines("DTSTART:20260101T000000Z\nRRULE:FREQ=SOMETIMES\n");
    assert_eq!(expand_recurring(&u, 0, 2_000_000_000), None);
}

#[test]
fn folded_lines_are_joined_back() {
    assert_eq!(unfold_ical_lines("SUMMARY:Long\r\n  text\r\nX:1"), "SUMMARY:Long text\nX:1");
    assert_eq!(unfold_ical_lines("A:1\nB:2\r\n"), "A:1\nB:2\n");
    assert_eq!(unfold_ical_lines(""), "");
}

#[test]
fn events_without_a_rule_do_not_repeat() {
    let u = unfold_ical_lines("BEGIN:VEVENT\r\nSUMMARY:Dentist\r\nDTSTART:20260915T100000\r\nEND:VEVENT\r\n");
    assert!(!has_rrule(&u));
    assert_eq!(recurrence_block(&u), "DTSTART:20260915T100000");
}

fn at(year: i32, month: u32, day: u32, hour: u32, minute: u32, second: u32) -> CivilDateTime {
    CivilDateTime { year, month, day, hour, minute, second }
}

#[test]
fn start_lines_are_told_apart_by_their_parameters() {
    assert_eq!(parse_dtstart("DTSTART", "20260915T151527Z"), Some(DtStart::Utc(at(2026, 9, 15, 15, 15, 27))));
    assert_eq!(
        parse_dtstart("DTSTART;TZID=Europe/Paris", "20260915T100000"),
        Some(DtStart::Zoned("Europe/Paris".to_string(), at(2026, 9, 15, 10, 0, 0)))
    );
    assert_eq!(parse_dtstart("DTSTART", "20260915T100000"), Some(DtStart::Floating(at(2026, 9, 15, 10, 0, 0))));
    assert_eq!(parse_dtstart("DTSTART;VALUE=DATE", "20261231"), Some(DtStart::Date(2026, 12, 31)));
    assert_eq!(parse_dtstart("DTSTART;VALUE=DATE", "20261331"), None);
    assert_eq!(parse_dtstart("DTSTART", "garbage"), None);
}

#[test]
fn an_event_without_a_start_is_skipped() {
    assert!(parse_summary_and_dtstart("SUMMARY:Nothing\nUID:1").is_none());
    let (s, d) = parse_summary_and_dtstart("DTSTART;VALUE=DATE:20260101").unwrap();
    assert_eq!(s, "");
    assert_eq!(d, DtStart::Date(2026, 1, 1));
}

const SOURCE_DATA: &str = "[Data Source]\nDisplayName=Personal\nEnabled=true\nParent=local-stub\n\n[Calendar]\nBackendName=local\nColor=#448aff\n";

#[test]
fn key_files_are_read_by_section() {
    let kf = parse_keyfile_sections("top=1\n[A]\nx=1\n  x = 2  \n[B]\n[A]\ny=3\nnot a pair\n");
    assert!(kf.has_section("A"));
    assert!(kf.has_section("B"));
    assert!(kf.has_section(""));
    assert!(!kf.has_section("C"));
    assert_eq!(kf.get("", "top"), Some("1"));
    assert_eq!(kf.get("A", "x"), Some("1"));
    assert_eq!(kf.get("A", "x "), Some(" 2"));
    assert_eq!(kf.get("A", "y"), Some("3"));
    assert_eq!(kf.get("B", "y"), None);
}

#[test]
fn calendar_sources_come_from_their_descriptions() {
    let c = calendar_source_from("uid-1", SOURCE_DATA).unwrap();
    assert_eq!(c.uid, "uid-1");
    assert_eq!(c.display_name, "Personal");
    assert_eq!(c.color, "#448aff");
    assert!(c.enabled);

    let bare = calendar_source_from("uid-2", "[Calendar]\n").unwrap();
    assert_eq!(bare.display_name, "uid-2");
    assert_eq!(bare.color, "#62a0ea");
    assert!(!bare.enabled);

    let disabled = calendar_source_from("uid-3", "[Data Source]\nEnabled=false\n[Calendar]\n").unwrap();
    assert!(!disabled.enabled);

    assert!(calendar_source_from("uid-4", "[Data Source]\nDisplayName=Mail\n[Mail Account]\n").is_none());
}

#[test]
fn child_nodes_are_listed_by_name() {
    let xml = "<node>\n  <interface name=\"org.freedesktop.DBus.Introspectable\"/>\n  <node name=\"Source_1\"/>\n  <node name=\"Source_2\"></node>\n  <node name=\"\"/>\n</node>";
    assert_eq!(parse_child_node_names(xml), vec!["Source_1".to_string(), "Source_2".to_string()]);
    assert!(parse_child_node_names("").is_empty());
}

#[test]
fn occurrences_fall_back_to_the_first_one_in_range() {
    let master = ((2026, 9, 16), Some((10, 0)));
    assert_eq!(event_occurrences(None, master, (2026, 8, 31), (2026, 10, 11)), vec![master]);
    assert!(event_occurrences(None, master, (2026, 10, 1), (2026, 10, 31)).is_empty());
    let expanded = vec![((2026, 9, 2), None), ((2026, 9, 9), None)];
    assert_eq!(event_occurrences(Some(expanded.clone()), master, (2026, 10, 1), (2026, 10, 31)), expanded);
}

fn event(time: Option<(u32, u32)>, summary: &str, color: &str) -> EventInfo {
    EventInfo { all_day: time.is_none(), time, summary: summary.to_string(), color: color.to_string() }
}

#[test]
fn events_are_grouped_by_day_and_sorted_by_time() {
    let d1 = (2026, 9, 16);
    let d2 = (2026, 9, 17);
    let groups = group_by_day(vec![
        (d1, event(Some((10, 0)), "b", "#1")),
        (d2, event(Some((8, 0)), "c", "#1")),
        (d1, event(Some((9, 0)), "a", "#2")),
        (d1, event(None, "all day", "#3")),
    ]);
    assert_eq!(groups.len(), 2);
    assert_eq!(groups[0].0, d1);
    let names: Vec<&str> = groups[0].1.iter().map(|e| e.summary.as_str()).collect();
    assert_eq!(names, vec!["all day", "a", "b"]);
    assert_eq!(groups[1].0, d2);
    assert_eq!(groups[1].1.len(), 1);
}

#[test]
fn a_day_shows_at_most_three_distinct_colors() {
    let events = vec![
        event(None, "1", "#a"),
        event(None, "2", "#b"),
        event(None, "3", "#a"),
        event(None, "4", "#c"),
        event(None, "5", "#d"),
    ];
    assert_eq!(bar_colors(&events), vec!["#a".to_string(), "#b".to_string(), "#c".to_string()]);
    assert!(bar_colors(&Vec::new()).is_empty());
}

#[test]
fn event_times_and_tooltips() {
    let standup = event(Some((9, 5)), "Standup", "#a");
    let holiday = event(None, "Holiday", "#b");
    assert_eq!(format_event_when(&standup, "Toute la journée"), "09:05");
    assert_eq!(format_event_when(&holiday, "Toute la journée"), "Toute la journée");
    assert_eq!(
        format_events_tooltip(&vec![standup, holiday], "All day"),
        "09:05 · Standup\nAll day · Holiday"
    );
}

#[test]
fn mark_classes_keep_only_letters_and_digits() {
    assert_eq!(bar_color_class("#448aff"), "xeneon-agenda-bar-448aff");
    assert_eq!(bar_color_class("rgb(1, 2, 3)"), "xeneon-agenda-bar-rgb123");
}

#[test]
fn grid_cells_mark_today_weekends_and_other_months() {
    let today = (2026, 9, 16);
    let t = day_cell_look(9, today, today, "#ffa726");
    assert!(t.today);
    assert_eq!(t.color, Some("#000000".to_string()));
    let weekend = day_cell_look(5, (2026, 9, 5), today, "#ffa726");
    assert_eq!(weekend.color, Some("#ffa726".to_string()));
    assert!(!weekend.dim);
    let previous = day_cell_look(0, (2026, 8, 31), today, "#ffa726");
    assert!(previous.dim);
    assert_eq!(previous.color, None);
    assert_eq!(header_color(6, "#ffa726"), Some("#ffa726".to_string()));
    assert_eq!(header_color(0, "#ffa726"), None);
}

#[test]
fn the_date_panel_reads_in_the_active_language() {
    let fr = Catalog::from_json_str(
        r#"{"widgets.agenda.days_long.wed": "mercredi",
            "widgets.agenda.months_long.sep": "septembre",
            "widgets.agenda.date_full": "{month} {year}"}"#,
    );
    let none = Catalog::default();
    assert_eq!(
        date_panel_texts(&fr, &none, 2, 16, 8, 2026),
        ("mercredi".to_string(), "16".to_string(), "septembre 2026".to_string())
    );
}

#[test]
fn enabled_calendars_are_selected_by_default_and_queried() {
    let a = calendar_source_from("a", "[Data Source]\nEnabled=true\n[Calendar]\n").unwrap();
    let b = calendar_source_from("b", "[Data Source]\nEnabled=false\n[Calendar]\n").unwrap();
    let c = calendar_source_from("c", "[Data Source]\nEnabled=true\n[Calendar]\n").unwrap();
    let sources = vec![a.clone(), b.clone(), c.clone()];
    let selected = default_selected_uids(&sources);
    assert_eq!(selected, vec!["a".to_string(), "c".to_string()]);
    assert!(is_queried(&a, &selected));
    assert!(!is_queried(&b, &vec!["b".to_string()]));
    assert!(!is_queried(&c, &vec!["a".to_string()]));
}

#[test]
fn the_selection_is_saved_sorted_and_once() {
    let uids = vec!["b".to_string(), "a".to_string(), "b".to_string(), "ab".to_string(), "B".to_string()];
    assert_eq!(
        saved_selection(&uids),
        vec!["B".to_string(), "a".to_string(), "ab".to_string(), "b".to_string()]
    );
    assert!(saved_selection(&Vec::new()).is_empty());
}

#[test]
fn a_date_only_start_is_placed_on_its_own_day_with_no_time() {
    assert_eq!(local_start(&DtStart::Date(2026, 7, 22)), Some(((2026, 7, 22), None)));
    let placed = local_start(&DtStart::Utc(at(2026, 9, 15, 10, 0, 0))).unwrap();
    assert!(placed.1.is_some());
    assert_eq!(local_start(&DtStart::Zoned("Nowhere/Atlantis".to_string(), at(2026, 9, 15, 10, 0, 0))), None);
}

#[test]
fn event_entries_carry_summary_color_and_time() {
    let master = ((2026, 9, 16), Some((10, 30)));
    let r = event_entries("Dentist", master, false, None, "#ff0000", (2026, 8, 31), (2026, 10, 11));
    assert_eq!(r.len(), 1);
    assert_eq!(r[0].0, (2026, 9, 16));
    assert!(!r[0].1.all_day);
    assert_eq!(r[0].1.time, Some((10, 30)));
    assert_eq!(r[0].1.summary, "Dentist");
    assert_eq!(r[0].1.color, "#ff0000");
    assert!(event_entries("Dentist", master, false, None, "#ff0000", (2026, 10, 1), (2026, 10, 31)).is_empty());
}

#[test]
fn repeating_events_show_their_placed_occurrences() {
    let master = ((2026, 7, 22), None);
    let expansion = vec![Some(((2026, 9, 2), Some((0, 0)))), None, Some(((2026, 9, 9), Some((0, 0))))];
    let r = event_entries("Ongle", master, true, Some(expansion.clone()), "blue", (2026, 8, 31), (2026, 10, 11));
    let days: Vec<_> = r.iter().map(|e| e.0).collect();
    assert_eq!(days, vec![(2026, 9, 2), (2026, 9, 9)]);
    assert!(r.iter().all(|e| e.1.all_day && e.1.time.is_none()));
    // Without a rule the expansion is not looked at: the first occurrence
    // is out of range here.
    assert!(event_entries("Ongle", master, false, Some(expansion), "blue", (2026, 8, 31), (2026, 10, 11)).is_empty());
    // A rule that did not parse falls back to the first occurrence.
    let r = event_entries("Ongle", master, true, None, "blue", (2026, 7, 1), (2026, 7, 31));
    assert_eq!(r.len(), 1);
    assert_eq!(r[0].0, (2026, 7, 22));
}

#[test]
fn a_calendar_event_without_a_start_adds_nothing() {
    let ics = "BEGIN:VEVENT\r\nSUMMARY:Nothing\r\nEND:VEVENT\r\n";
    assert!(calendar_event_entries(ics, "red", 0, 2_000_000_000, (2026, 1, 1), (2026, 12, 31)).is_empty());
}

#[test]
fn an_all_day_calendar_event_is_shown_on_its_day() {
    let ics = "BEGIN:VEVENT\r\nSUMMARY:Holiday\r\nDTSTART;VALUE=DATE:20260915\r\nEND:VEVENT\r\n";
    let r = calendar_event_entries(ics, "green", 0, 2_000_000_000, (2026, 9, 1), (2026, 9, 30));
    assert_eq!(r.len(), 1);
    assert_eq!(r[0].0, (2026, 9, 15));
    assert!(r[0].1.all_day);
    assert_eq!(r[0].1.time, None);
    assert_eq!(r[0].1.summary, "Holiday");
    assert_eq!(r[0].1.color, "green");
    assert!(calendar_event_entries(ics, "green", 0, 2_000_000_000, (2026, 10, 1), (2026, 10, 31)).is_empty());
}

#[test]
fn a_repeating_calendar_event_shows_each_occurrence() {
    let start_utc = chrono::DateTime::parse_from_rfc3339("2026-09-01T00:00:00Z").unwrap().timestamp();
    let end_utc = chrono::DateTime::parse_from_rfc3339("2026-10-01T00:00:00Z").unwrap().timestamp();
    let r = calendar_event_entries(ONGLE_ICS, "blue", start_utc, end_utc, (2026, 9, 1), (2026, 9, 30));
    assert_eq!(r.len(), 5);
    assert!(r.iter().all(|e| e.1.all_day && e.1.time.is_none() && e.1.summary == "Ongle" && e.1.color == "blue"));
}

#[test]
fn a_floating_start_keeps_its_own_day_and_time() {
    assert_eq!(local_start(&DtStart::Floating(at(2026, 9, 15, 10, 30, 0))), Some(((2026, 9, 15), Some((10, 30)))));
}

#[test]
fn a_utc_start_lands_within_a_day_of_its_date() {
    let ((y, m, d), time) = local_start(&DtStart::Utc(at(2026, 9, 15, 12, 0, 0))).unwrap();
    assert!(time.is_some());
    assert_eq!((y, m), (2026, 9));
    assert!((14..=16).contains(&d));
    let ((y, m, d), _) = local_instant(0).unwrap();
    assert!((y, m, d) == (1970, 1, 1) || (y, m, d) == (1969, 12, 31));
}

#[test]
fn a_floating_calendar_event_is_shown_on_its_own_day() {
    let ics = "BEGIN:VEVENT\r\nSUMMARY:Dentist\r\nDTSTART:20260915T103000\r\nEND:VEVENT\r\n";
    let r = calendar_event_entries(ics, "red", 0, 2_000_000_000, (2026, 9, 1), (2026, 9, 30));
    assert_eq!(r.len(), 1);
    assert_eq!(r[0].0, (2026, 9, 15));
    assert_eq!(r[0].1.time, Some((10, 30)));
    assert!(!r[0].1.all_day);
    assert!(calendar_event_entries(ics, "red", 0, 2_000_000_000, (2026, 10, 1), (2026, 10, 31)).is_empty());
}

fn source(uid: &str, color: &str, enabled: bool) -> CalendarSource {
    CalendarSource { uid: uid.to_string(), display_name: uid.to_string(), color: color.to_string(), enabled }
}

#[test]
fn the_month_keeps_only_enabled_selected_calendars() {
    let selected = vec!["work".to_string(), "off".to_string()];
    let calendars = vec![
        (source("work", "blue", true), vec![((2026, 9, 2), event(Some((14, 0)), "Meeting", "blue")), ((2026, 9, 1), event(Some((9, 0)), "Standup", "blue"))]),
        (source("home", "green", true), vec![((2026, 9, 2), event(None, "Laundry", "green"))]),
        (source("off", "red", false), vec![((2026, 9, 3), event(None, "Hidden", "red"))]),
        (source("work2", "gray", true), vec![]),
    ];
    let r = month_entries(calendars, &selected);
    let days: Vec<_> = r.iter().map(|g| g.0).collect();
    assert_eq!(days, vec![(2026, 9, 2), (2026, 9, 1)]);
    assert_eq!(r[0].1.len(), 1);
    assert_eq!(r[0].1[0].summary, "Meeting");
    assert_eq!(r[1].1[0].summary, "Standup");
}
