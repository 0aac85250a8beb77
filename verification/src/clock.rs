//! What the clock widget shows: the hour in 12- or 24-hour form, the
//! two-digit fields, the names of the day and month looked up in the
//! translation catalogs, and the cities it can show the time of.
use vstd::prelude::*;

use crate::i18n::{arg_views, lookup_text, substitute, translate, Catalog};
use crate::text::{push_str, string_of};

verus! {

/// The time zone of the city with translation key `key` among the cities
/// offered, if it is one.
pub open spec fn city_zone(key: Seq<char>) -> Option<Seq<char>> {
    if key == "widgets.clock.cities.paris"@ {
        Some("Europe/Paris"@)
    } else if key == "widgets.clock.cities.london"@ {
        Some("Europe/London"@)
    } else if key == "widgets.clock.cities.berlin"@ {
        Some("Europe/Berlin"@)
    } else if key == "widgets.clock.cities.moscow"@ {
        Some("Europe/Moscow"@)
    } else if key == "widgets.clock.cities.new_york"@ {
        Some("America/New_York"@)
    } else if key == "widgets.clock.cities.chicago"@ {
        Some("America/Chicago"@)
    } else if key == "widgets.clock.cities.los_angeles"@ {
        Some("America/Los_Angeles"@)
    } else if key == "widgets.clock.cities.sao_paulo"@ {
        Some("America/Sao_Paulo"@)
    } else if key == "widgets.clock.cities.dubai"@ {
        Some("Asia/Dubai"@)
    } else if key == "widgets.clock.cities.tokyo"@ {
        Some("Asia/Tokyo"@)
    } else if key == "widgets.clock.cities.beijing"@ {
        Some("Asia/Shanghai"@)
    } else if key == "widgets.clock.cities.sydney"@ {
        Some("Australia/Sydney"@)
    } else {
        None
    }
}

/// The IANA time zone of the offered city with translation key
/// `city_key`; `None` for a key that is not among them.
pub fn city_timezone(city_key: &str) -> (r: Option<&'static str>)
    ensures
        match r {
            Some(z) => city_zone(city_key@) == Some(z@),
            None => city_zone(city_key@) is None,
        },
{
    let k = crate::text::chars_of(city_key);
    if crate::text::text_equals("widgets.clock.cities.paris", &k) {
        Some("Europe/Paris")
    } else if crate::text::text_equals("widgets.clock.cities.london", &k) {
        Some("Europe/London")
    } else if crate::text::text_equals("widgets.clock.cities.berlin", &k) {
        Some("Europe/Berlin")
    } else if crate::text::text_equals("widgets.clock.cities.moscow", &k) {
        Some("Europe/Moscow")
    } else if crate::text::text_equals("widgets.clock.cities.new_york", &k) {
        Some("America/New_York")
    } else if crate::text::text_equals("widgets.clock.cities.chicago", &k) {
        Some("America/Chicago")
    } else if crate::text::text_equals("widgets.clock.cities.los_angeles", &k) {
        Some("America/Los_Angeles")
    } else if crate::text::text_equals("widgets.clock.cities.sao_paulo", &k) {
        Some("America/Sao_Paulo")
    } else if crate::text::text_equals("widgets.clock.cities.dubai", &k) {
        Some("Asia/Dubai")
    } else if crate::text::text_equals("widgets.clock.cities.tokyo", &k) {
        Some("Asia/Tokyo")
    } else if crate::text::text_equals("widgets.clock.cities.beijing", &k) {
        Some("Asia/Shanghai")
    } else if crate::text::text_equals("widgets.clock.cities.sydney", &k) {
        Some("Australia/Sydney")
    } else {
        None
    }
}

/// The city a new clock shows: its translation key and time zone.
pub fn default_city() -> (r: (&'static str, &'static str))
    ensures
        r.0@ == "widgets.clock.cities.los_angeles"@,
        r.1@ == "America/Los_Angeles"@,
        city_zone(r.0@) == Some(r.1@),
{
    proof {
        reveal_strlit("widgets.clock.cities.los_angeles");
        reveal_strlit("widgets.clock.cities.paris");
        reveal_strlit("widgets.clock.cities.london");
        reveal_strlit("widgets.clock.cities.berlin");
        reveal_strlit("widgets.clock.cities.moscow");
        reveal_strlit("widgets.clock.cities.new_york");
        reveal_strlit("widgets.clock.cities.chicago");
        assert("widgets.clock.cities.los_angeles"@.len() == 32);
        assert("widgets.clock.cities.paris"@.len() == 26);
        assert("widgets.clock.cities.london"@.len() == 27);
        assert("widgets.clock.cities.berlin"@.len() == 27);
        assert("widgets.clock.cities.moscow"@.len() == 27);
        assert("widgets.clock.cities.new_york"@.len() == 29);
        assert("widgets.clock.cities.chicago"@.len() == 28);
    }
    ("widgets.clock.cities.los_angeles", "America/Los_Angeles")
}

/// The hour shown for the hour of the day `hour` (0 to 23): itself on a
/// 24-hour clock, else 12 for midnight and noon and the hour modulo 12.
pub open spec fn shown_hour(hour: u32, hour_12: bool) -> u32 {
    if hour_12 {
        if hour % 12 == 0 {
            12
        } else {
            hour % 12
        }
    } else {
        hour
    }
}

/// The hour to show for the hour of the day `hour`.
pub fn display_hour(hour: u32, hour_12: bool) -> (r: u32)
    ensures
        r == shown_hour(hour, hour_12),
{
    if hour_12 {
        let h = hour % 12;
        if h == 0 {
            12
        } else {
            h
        }
    } else {
        hour
    }
}

/// The translation key of the AM/PM mark for the hour of the day `hour`.
pub fn meridiem_key(hour: u32) -> (r: &'static str)
    ensures
        r@ == (if hour < 12 {
            "widgets.clock.am"@
        } else {
            "widgets.clock.pm"@
        }),
{
    if hour < 12 {
        "widgets.clock.am"
    } else {
        "widgets.clock.pm"
    }
}

fn two_digit_string(n: u32) -> (r: String)
    ensures
        r@ == crate::agenda::two_digits(n as nat),
{
    let mut v: Vec<char> = Vec::new();
    if n < 10 {
        v.push('0');
    }
    crate::text::push_decimal(&mut v, n as u64);
    assert(v@ =~= crate::agenda::two_digits(n as nat));
    string_of(&v)
}

/// The hour, minute and second fields of the clock face, each with at
/// least two digits; the hour as `shown_hour` gives it.
pub fn clock_fields(hour: u32, minute: u32, second: u32, hour_12: bool) -> (r: (String, String, String))
    ensures
        r.0@ == crate::agenda::two_digits(shown_hour(hour, hour_12) as nat),
        r.1@ == crate::agenda::two_digits(minute as nat),
        r.2@ == crate::agenda::two_digits(second as nat),
{
    (two_digit_string(display_hour(hour, hour_12)), two_digit_string(minute), two_digit_string(second))
}

/// The short key of the day of the week `d` (0 for Monday to 6 for Sunday).
pub open spec fn day_key_of(d: u32) -> Seq<char> {
    if d == 0 {
        "mon"@
    } else if d == 1 {
        "tue"@
    } else if d == 2 {
        "wed"@
    } else if d == 3 {
        "thu"@
    } else if d == 4 {
        "fri"@
    } else if d == 5 {
        "sat"@
    } else {
        "sun"@
    }
}

/// The short key of the month `m0` (0 for January to 11 for December).
pub open spec fn month_key_of(m0: u32) -> Seq<char> {
    if m0 == 0 {
        "jan"@
    } else if m0 == 1 {
        "feb"@
    } else if m0 == 2 {
        "mar"@
    } else if m0 == 3 {
        "apr"@
    } else if m0 == 4 {
        "may"@
    } else if m0 == 5 {
        "jun"@
    } else if m0 == 6 {
        "jul"@
    } else if m0 == 7 {
        "aug"@
    } else if m0 == 8 {
        "sep"@
    } else if m0 == 9 {
        "oct"@
    } else if m0 == 10 {
        "nov"@
    } else {
        "dec"@
    }
}

/// The short key of the day of the week `d`, Monday first.
pub fn day_key(d: u32) -> (r: &'static str)
    requires
        d < 7,
    ensures
        r@ == day_key_of(d),
{
    if d == 0 {
        "mon"
    } else if d == 1 {
        "tue"
    } else if d == 2 {
        "wed"
    } else if d == 3 {
        "thu"
    } else if d == 4 {
        "fri"
    } else if d == 5 {
        "sat"
    } else {
        "sun"
    }
}

/// The short key of the month `m0`, January first.
pub fn month_key(m0: u32) -> (r: &'static str)
    requires
        m0 < 12,
    ensures
        r@ == month_key_of(m0),
{
    if m0 == 0 {
        "jan"
    } else if m0 == 1 {
        "feb"
    } else if m0 == 2 {
        "mar"
    } else if m0 == 3 {
        "apr"
    } else if m0 == 4 {
        "may"
    } else if m0 == 5 {
        "jun"
    } else if m0 == 6 {
        "jul"
    } else if m0 == 7 {
        "aug"
    } else if m0 == 8 {
        "sep"
    } else if m0 == 9 {
        "oct"
    } else if m0 == 10 {
        "nov"
    } else {
        "dec"
    }
}

/// `prefix` followed by `key`.
fn keyed(prefix: &str, key: &str) -> (r: String)
    ensures
        r@ == prefix@ + key@,
{
    crate::text::concat(prefix, key)
}

/// The translation key of the name of the day of the week `d` (Monday
/// first) in the long or short form.
pub open spec fn clock_day_name_key(d: u32, long: bool) -> Seq<char> {
    (if long {
        "widgets.clock.days_long."@
    } else {
        "widgets.clock.days_short."@
    }) + day_key_of(d)
}

/// The translation key of the name of month `m0` (January first) in the
/// long or short form.
pub open spec fn clock_month_name_key(m0: u32, long: bool) -> Seq<char> {
    (if long {
        "widgets.clock.months_long."@
    } else {
        "widgets.clock.months_short."@
    }) + month_key_of(m0)
}

/// The date line under the clock: the long or short date template with
/// the translated day and month names, the day of the month and (long
/// form only) the year substituted.
pub open spec fn clock_date_line(
    active: Map<Seq<char>, Seq<char>>,
    fallback: Map<Seq<char>, Seq<char>>,
    long: bool,
    weekday: u32,
    day: u32,
    month0: u32,
    year: i32,
) -> Seq<char> {
    let day_name = lookup_text(active, fallback, clock_day_name_key(weekday, long));
    let month_name = lookup_text(active, fallback, clock_month_name_key(month0, long));
    let day_num = crate::text::decimal(day as nat);
    if long {
        substitute(
            lookup_text(active, fallback, "widgets.clock.date_long"@),
            seq![
                ("day"@, day_name),
                ("day_num"@, day_num),
                ("month"@, month_name),
                ("year"@, crate::text::signed_decimal(year as int)),
            ],
        )
    } else {
        substitute(
            lookup_text(active, fallback, "widgets.clock.date_short"@),
            seq![("day"@, day_name), ("day_num"@, day_num), ("month"@, month_name)],
        )
    }
}

/// The date line under the clock for the given day of the week (Monday
/// first), day of the month, month (January first) and year, in the
/// language of `active` (with `fallback` behind it).
pub fn clock_date_text(
    active: &Catalog,
    fallback: &Catalog,
    long: bool,
    weekday: u32,
    day: u32,
    month0: u32,
    year: i32,
) -> (r: String)
    requires
        weekday < 7,
        month0 < 12,
    ensures
        r@ == clock_date_line(active@, fallback@, long, weekday, day, month0, year),
{
    let day_prefix = if long {
        "widgets.clock.days_long."
    } else {
        "widgets.clock.days_short."
    };
    let month_prefix = if long {
        "widgets.clock.months_long."
    } else {
        "widgets.clock.months_short."
    };
    let day_name_key = keyed(day_prefix, day_key(weekday));
    let month_name_key = keyed(month_prefix, month_key(month0));
    let no_args: Vec<(&str, &str)> = Vec::new();
    let day_name = translate(active, fallback, day_name_key.as_str(), no_args.as_slice());
    let month_name = translate(active, fallback, month_name_key.as_str(), no_args.as_slice());
    proof {
        assert(arg_views(no_args@) =~= Seq::<(Seq<char>, Seq<char>)>::empty());
        assert(substitute(lookup_text(active@, fallback@, day_name_key@), Seq::empty()) == lookup_text(
            active@,
            fallback@,
            day_name_key@,
        ));
        assert(substitute(lookup_text(active@, fallback@, month_name_key@), Seq::empty()) == lookup_text(
            active@,
            fallback@,
            month_name_key@,
        ));
    }
    let day_num = crate::text::decimal_string(day as u64);
    if long {
        let mut yv: Vec<char> = Vec::new();
        crate::text::push_signed_decimal(&mut yv, year as i64);
        assert(yv@ =~= crate::text::signed_decimal(year as int));
        let year_s = string_of(&yv);
        let args: Vec<(&str, &str)> = vec![
            ("day", day_name.as_str()),
            ("day_num", day_num.as_str()),
            ("month", month_name.as_str()),
            ("year", year_s.as_str()),
        ];
        let r = translate(active, fallback, "widgets.clock.date_long", args.as_slice());
        assert(arg_views(args@) =~= seq![
            ("day"@, day_name@),
            ("day_num"@, day_num@),
            ("month"@, month_name@),
            ("year"@, year_s@),
        ]);
        r
    } else {
        let args: Vec<(&str, &str)> = vec![
            ("day", day_name.as_str()),
            ("day_num", day_num.as_str()),
            ("month", month_name.as_str()),
        ];
        let r = translate(active, fallback, "widgets.clock.date_short", args.as_slice());
        assert(arg_views(args@) =~= seq![("day"@, day_name@), ("day_num"@, day_num@), ("month"@, month_name@)]);
        r
    }
}


/// On a 12-hour clock every hour of the day shows as 1 to 12, and the
/// same hour twelve hours apart shows the same.
pub proof fn lemma_twelve_hour_range(hour: u32)
    requires
        hour < 24,
    ensures
        1 <= shown_hour(hour, true) <= 12,
        hour < 12 ==> shown_hour(hour, true) == shown_hour((hour + 12) as u32, true),
{
}

/// A clock's own settings, as saved: fonts and colors as their text
/// forms, the city shown (its translation key) with its time zone, and the
/// display switches.
#[derive(Debug, Clone)]
pub struct ClockSettings {
    pub time_font: String,
    pub time_color: String,
    pub label_font: String,
    pub label_color: String,
    pub city_key: String,
    pub timezone: String,
    pub date_format_long: bool,
    pub hour_format_12h: bool,
    pub city_visible: bool,
    pub date_visible: bool,
}

/// The fields of a saved clock, each `None` when absent from the saved
/// object or not of the right type.
#[derive(Debug, Clone, Default)]
pub struct SavedClock {
    pub time_font: Option<String>,
    pub time_color: Option<String>,
    pub label_font: Option<String>,
    pub label_color: Option<String>,
    pub city_key: Option<String>,
    pub date_format_long: Option<bool>,
    pub hour_format_12h: Option<bool>,
    pub city_visible: Option<bool>,
    pub date_visible: Option<bool>,
}

/// The value of a `ClockSettings`.
pub ghost struct ClockView {
    pub time_font: Seq<char>,
    pub time_color: Seq<char>,
    pub label_font: Seq<char>,
    pub label_color: Seq<char>,
    pub city_key: Seq<char>,
    pub timezone: Seq<char>,
    pub date_format_long: bool,
    pub hour_format_12h: bool,
    pub city_visible: bool,
    pub date_visible: bool,
}

/// The value of a `SavedClock`.
pub ghost struct SavedClockView {
    pub time_font: Option<Seq<char>>,
    pub time_color: Option<Seq<char>>,
    pub label_font: Option<Seq<char>>,
    pub label_color: Option<Seq<char>>,
    pub city_key: Option<Seq<char>>,
    pub date_format_long: Option<bool>,
    pub hour_format_12h: Option<bool>,
    pub city_visible: Option<bool>,
    pub date_visible: Option<bool>,
}

pub open spec fn opt_view(v: Option<String>) -> Option<Seq<char>> {
    match v {
        Some(t) => Some(t@),
        None => None,
    }
}

impl View for ClockSettings {
    type V = ClockView;

    open spec fn view(&self) -> ClockView {
        ClockView {
            time_font: self.time_font@,
            time_color: self.time_color@,
            label_font: self.label_font@,
            label_color: self.label_color@,
            city_key: self.city_key@,
            timezone: self.timezone@,
            date_format_long: self.date_format_long,
            hour_format_12h: self.hour_format_12h,
            city_visible: self.city_visible,
            date_visible: self.date_visible,
        }
    }
}

impl View for SavedClock {
    type V = SavedClockView;

    open spec fn view(&self) -> SavedClockView {
        SavedClockView {
            time_font: opt_view(self.time_font),
            time_color: opt_view(self.time_color),
            label_font: opt_view(self.label_font),
            label_color: opt_view(self.label_color),
            city_key: opt_view(self.city_key),
            date_format_long: self.date_format_long,
            hour_format_12h: self.hour_format_12h,
            city_visible: self.city_visible,
            date_visible: self.date_visible,
        }
    }
}

pub open spec fn or_keep<T>(v: Option<T>, old: T) -> T {
    match v {
        Some(t) => t,
        None => old,
    }
}

/// A clock after applying the saved fields `saved`: every field present
/// replaces the current one and the others are kept; a saved city that is
/// not among the offered ones is ignored, and an offered one brings its
/// time zone along.
pub open spec fn applied(before: ClockView, saved: SavedClockView) -> ClockView {
    let (city_key, timezone) = match saved.city_key {
        Some(k) => match city_zone(k) {
            Some(z) => (k, z),
            None => (before.city_key, before.timezone),
        },
        None => (before.city_key, before.timezone),
    };
    ClockView {
        time_font: or_keep(saved.time_font, before.time_font),
        time_color: or_keep(saved.time_color, before.time_color),
        label_font: or_keep(saved.label_font, before.label_font),
        label_color: or_keep(saved.label_color, before.label_color),
        city_key,
        timezone,
        date_format_long: or_keep(saved.date_format_long, before.date_format_long),
        hour_format_12h: or_keep(saved.hour_format_12h, before.hour_format_12h),
        city_visible: or_keep(saved.city_visible, before.city_visible),
        date_visible: or_keep(saved.date_visible, before.date_visible),
    }
}

/// What a clock saves: every field but the time zone, which its city
/// determines.
pub open spec fn saved_of(c: ClockView) -> SavedClockView {
    SavedClockView {
        time_font: Some(c.time_font),
        time_color: Some(c.time_color),
        label_font: Some(c.label_font),
        label_color: Some(c.label_color),
        city_key: Some(c.city_key),
        date_format_long: Some(c.date_format_long),
        hour_format_12h: Some(c.hour_format_12h),
        city_visible: Some(c.city_visible),
        date_visible: Some(c.date_visible),
    }
}

/// The out-of-the-box clock: large time, Los Angeles, short date, 24-hour
/// time, city and date shown.
pub open spec fn default_clock() -> ClockView {
    ClockView {
        time_font: "Sans 72"@,
        time_color: "#ffffff"@,
        label_font: "Sans 18"@,
        label_color: "#ffffff"@,
        city_key: "widgets.clock.cities.los_angeles"@,
        timezone: "America/Los_Angeles"@,
        date_format_long: false,
        hour_format_12h: false,
        city_visible: true,
        date_visible: true,
    }
}

fn copy_text(s: &String) -> (r: String)
    ensures
        r@ == s@,
{
    crate::text::string_of(&crate::text::chars_of(s.as_str()))
}

impl ClockSettings {
    /// The settings of a new clock, which a reset also goes back to.
    pub fn defaults() -> (c: Self)
        ensures
            c@ == default_clock(),
    {
        let (city, zone) = default_city();
        ClockSettings {
            time_font: crate::text::string_of(&crate::text::chars_of("Sans 72")),
            time_color: crate::text::string_of(&crate::text::chars_of("#ffffff")),
            label_font: crate::text::string_of(&crate::text::chars_of("Sans 18")),
            label_color: crate::text::string_of(&crate::text::chars_of("#ffffff")),
            city_key: crate::text::string_of(&crate::text::chars_of(city)),
            timezone: crate::text::string_of(&crate::text::chars_of(zone)),
            date_format_long: false,
            hour_format_12h: false,
            city_visible: true,
            date_visible: true,
        }
    }

    /// Applies a saved clock, so that an older or partial save still
    /// applies field by field.
    pub fn apply_saved(&mut self, saved: &SavedClock)
        ensures
            final(self)@ == applied(old(self)@, saved@),
    {
        if let Some(v) = &saved.time_font {
            self.time_font = copy_text(v);
        }
        if let Some(v) = &saved.time_color {
            self.time_color = copy_text(v);
        }
        if let Some(v) = &saved.label_font {
            self.label_font = copy_text(v);
        }
        if let Some(v) = &saved.label_color {
            self.label_color = copy_text(v);
        }
        if let Some(k) = &saved.city_key {
            if let Some(zone) = city_timezone(k.as_str()) {
                self.city_key = copy_text(k);
                self.timezone = crate::text::string_of(&crate::text::chars_of(zone));
            }
        }
        if let Some(v) = saved.date_format_long {
            self.date_format_long = v;
        }
        if let Some(v) = saved.hour_format_12h {
            self.hour_format_12h = v;
        }
        if let Some(v) = saved.city_visible {
            self.city_visible = v;
        }
        if let Some(v) = saved.date_visible {
            self.date_visible = v;
        }
    }

    /// What this clock saves.
    pub fn to_saved(&self) -> (s: SavedClock)
        ensures
            s@ == saved_of(self@),
    {
        SavedClock {
            time_font: Some(copy_text(&self.time_font)),
            time_color: Some(copy_text(&self.time_color)),
            label_font: Some(copy_text(&self.label_font)),
            label_color: Some(copy_text(&self.label_color)),
            city_key: Some(copy_text(&self.city_key)),
            date_format_long: Some(self.date_format_long),
            hour_format_12h: Some(self.hour_format_12h),
            city_visible: Some(self.city_visible),
            date_visible: Some(self.date_visible),
        }
    }
}

/// Applying what a clock saved, to any clock, gives back the saved clock,
/// provided its city is one of those offered and its time zone that
/// city's (as for every clock made by these functions).
pub proof fn lemma_saved_clock_restores(before: ClockView, source: ClockView)
    requires
        city_zone(source.city_key) == Some(source.timezone),
    ensures
        applied(before, saved_of(source)) == source,
{
}

/// Applying a save with no field leaves a clock as it was.
pub proof fn lemma_empty_save_changes_nothing(before: ClockView)
    ensures
        applied(
            before,
            SavedClockView {
                time_font: None,
                time_color: None,
                label_font: None,
                label_color: None,
                city_key: None,
                date_format_long: None,
                hour_format_12h: None,
                city_visible: None,
                date_visible: None,
            },
        ) == before,
{
}

/// The default clock's city is an offered one, with its own time zone.
pub proof fn lemma_default_clock_city_is_offered()
    ensures
        city_zone(default_clock().city_key) == Some(default_clock().timezone),
{
    reveal_strlit("widgets.clock.cities.los_angeles");
    reveal_strlit("widgets.clock.cities.paris");
    reveal_strlit("widgets.clock.cities.london");
    reveal_strlit("widgets.clock.cities.berlin");
    reveal_strlit("widgets.clock.cities.moscow");
    reveal_strlit("widgets.clock.cities.new_york");
    reveal_strlit("widgets.clock.cities.chicago");
    assert("widgets.clock.cities.los_angeles"@.len() == 32);
    assert("widgets.clock.cities.paris"@.len() == 26);
    assert("widgets.clock.cities.london"@.len() == 27);
    assert("widgets.clock.cities.berlin"@.len() == 27);
    assert("widgets.clock.cities.moscow"@.len() == 27);
    assert("widgets.clock.cities.new_york"@.len() == 29);
    assert("widgets.clock.cities.chicago"@.len() == 28);
}


/// Each offered city shows its own IANA time zone (New York in
/// `America/New_York`, and so on).
pub proof fn lemma_city_zones()
    ensures
        city_zone("widgets.clock.cities.paris"@) == Some("Europe/Paris"@),
        city_zone("widgets.clock.cities.london"@) == Some("Europe/London"@),
        city_zone("widgets.clock.cities.berlin"@) == Some("Europe/Berlin"@),
        city_zone("widgets.clock.cities.moscow"@) == Some("Europe/Moscow"@),
        city_zone("widgets.clock.cities.new_york"@) == Some("America/New_York"@),
        city_zone("widgets.clock.cities.chicago"@) == Some("America/Chicago"@),
        city_zone("widgets.clock.cities.los_angeles"@) == Some("America/Los_Angeles"@),
        city_zone("widgets.clock.cities.sao_paulo"@) == Some("America/Sao_Paulo"@),
        city_zone("widgets.clock.cities.dubai"@) == Some("Asia/Dubai"@),
        city_zone("widgets.clock.cities.tokyo"@) == Some("Asia/Tokyo"@),
        city_zone("widgets.clock.cities.beijing"@) == Some("Asia/Shanghai"@),
        city_zone("widgets.clock.cities.sydney"@) == Some("Australia/Sydney"@),
{
    assert("widgets.clock.cities.london"@ != "widgets.clock.cities.paris"@) by {
        reveal_strlit("widgets.clock.cities.london");
        reveal_strlit("widgets.clock.cities.paris");
        assert("widgets.clock.cities.london"@.len() != "widgets.clock.cities.paris"@.len());
    }
    assert("widgets.clock.cities.berlin"@ != "widgets.clock.cities.paris"@) by {
        reveal_strlit("widgets.clock.cities.berlin");
        reveal_strlit("widgets.clock.cities.paris");
        assert("widgets.clock.cities.berlin"@.len() != "widgets.clock.cities.paris"@.len());
    }
    assert("widgets.clock.cities.berlin"@ != "widgets.clock.cities.london"@) by {
        reveal_strlit("widgets.clock.cities.berlin");
        reveal_strlit("widgets.clock.cities.london");
        assert("widgets.clock.cities.berlin"@[21] != "widgets.clock.cities.london"@[21]);
    }
    assert("widgets.clock.cities.moscow"@ != "widgets.clock.cities.paris"@) by {
        reveal_strlit("widgets.clock.cities.moscow");
        reveal_strlit("widgets.clock.cities.paris");
        assert("widgets.clock.cities.moscow"@.len() != "widgets.clock.cities.paris"@.len());
    }
    assert("widgets.clock.cities.moscow"@ != "widgets.clock.cities.london"@) by {
        reveal_strlit("widgets.clock.cities.moscow");
        reveal_strlit("widgets.clock.cities.london");
        assert("widgets.clock.cities.moscow"@[21] != "widgets.clock.cities.london"@[21]);
    }
    assert("widgets.clock.cities.moscow"@ != "widgets.clock.cities.berlin"@) by {
        reveal_strlit("widgets.clock.cities.moscow");
        reveal_strlit("widgets.clock.cities.berlin");
        assert("widgets.clock.cities.moscow"@[21] != "widgets.clock.cities.berlin"@[21]);
    }
    assert("widgets.clock.cities.new_york"@ != "widgets.clock.cities.paris"@) by {
        reveal_strlit("widgets.clock.cities.new_york");
        reveal_strlit("widgets.clock.cities.paris");
        assert("widgets.clock.cities.new_york"@.len() != "widgets.clock.cities.paris"@.len());
    }
    assert("widgets.clock.cities.new_york"@ != "widgets.clock.cities.london"@) by {
        reveal_strlit("widgets.clock.cities.new_york");
        reveal_strlit("widgets.clock.cities.london");
        assert("widgets.clock.cities.new_york"@.len() != "widgets.clock.cities.london"@.len());
    }
    assert("widgets.clock.cities.new_york"@ != "widgets.clock.cities.berlin"@) by {
        reveal_strlit("widgets.clock.cities.new_york");
        reveal_strlit("widgets.clock.cities.berlin");
        assert("widgets.clock.cities.new_york"@.len() != "widgets.clock.cities.berlin"@.len());
    }
    assert("widgets.clock.cities.new_york"@ != "widgets.clock.cities.moscow"@) by {
        reveal_strlit("widgets.clock.cities.new_york");
        reveal_strlit("widgets.clock.cities.moscow");
        assert("widgets.clock.cities.new_york"@.len() != "widgets.clock.cities.moscow"@.len());
    }
    assert("widgets.clock.cities.chicago"@ != "widgets.clock.cities.paris"@) by {
        reveal_strlit("widgets.clock.cities.chicago");
        reveal_strlit("widgets.clock.cities.paris");
        assert("widgets.clock.cities.chicago"@.len() != "widgets.clock.cities.paris"@.len());
    }
    assert("widgets.clock.cities.chicago"@ != "widgets.clock.cities.london"@) by {
        reveal_strlit("widgets.clock.cities.chicago");
        reveal_strlit("widgets.clock.cities.london");
        assert("widgets.clock.cities.chicago"@.len() != "widgets.clock.cities.london"@.len());
    }
    assert("widgets.clock.cities.chicago"@ != "widgets.clock.cities.berlin"@) by {
        reveal_strlit("widgets.clock.cities.chicago");
        reveal_strlit("widgets.clock.cities.berlin");
        assert("widgets.clock.cities.chicago"@.len() != "widgets.clock.cities.berlin"@.len());
    }
    assert("widgets.clock.cities.chicago"@ != "widgets.clock.cities.moscow"@) by {
        reveal_strlit("widgets.clock.cities.chicago");
        reveal_strlit("widgets.clock.cities.moscow");
        assert("widgets.clock.cities.chicago"@.len() != "widgets.clock.cities.moscow"@.len());
    }
    assert("widgets.clock.cities.chicago"@ != "widgets.clock.cities.new_york"@) by {
        reveal_strlit("widgets.clock.cities.chicago");
        reveal_strlit("widgets.clock.cities.new_york");
        assert("widgets.clock.cities.chicago"@.len() != "widgets.clock.cities.new_york"@.len());
    }
    assert("widgets.clock.cities.los_angeles"@ != "widgets.clock.cities.paris"@) by {
        reveal_strlit("widgets.clock.cities.los_angeles");
        reveal_strlit("widgets.clock.cities.paris");
        assert("widgets.clock.cities.los_angeles"@.len() != "widgets.clock.cities.paris"@.len());
    }
    assert("widgets.clock.cities.los_angeles"@ != "widgets.clock.cities.london"@) by {
        reveal_strlit("widgets.clock.cities.los_angeles");
        reveal_strlit("widgets.clock.cities.london");
        assert("widgets.clock.cities.los_angeles"@.len() != "widgets.clock.cities.london"@.len());
    }
    assert("widgets.clock.cities.los_angeles"@ != "widgets.clock.cities.berlin"@) by {
        reveal_strlit("widgets.clock.cities.los_angeles");
        reveal_strlit("widgets.clock.cities.berlin");
        assert("widgets.clock.cities.los_angeles"@.len() != "widgets.clock.cities.berlin"@.len());
    }
    assert("widgets.clock.cities.los_angeles"@ != "widgets.clock.cities.moscow"@) by {
        reveal_strlit("widgets.clock.cities.los_angeles");
        reveal_strlit("widgets.clock.cities.moscow");
        assert("widgets.clock.cities.los_angeles"@.len() != "widgets.clock.cities.moscow"@.len());
    }
    assert("widgets.clock.cities.los_angeles"@ != "widgets.clock.cities.new_york"@) by {
        reveal_strlit("widgets.clock.cities.los_angeles");
        reveal_strlit("widgets.clock.cities.new_york");
        assert("widgets.clock.cities.los_angeles"@.len() != "widgets.clock.cities.new_york"@.len());
    }
    assert("widgets.clock.cities.los_angeles"@ != "widgets.clock.cities.chicago"@) by {
        reveal_strlit("widgets.clock.cities.los_angeles");
        reveal_strlit("widgets.clock.cities.chicago");
        assert("widgets.clock.cities.los_angeles"@.len() != "widgets.clock.cities.chicago"@.len());
    }
    assert("widgets.clock.cities.sao_paulo"@ != "widgets.clock.cities.paris"@) by {
        reveal_strlit("widgets.clock.cities.sao_paulo");
        reveal_strlit("widgets.clock.cities.paris");
        assert("widgets.clock.cities.sao_paulo"@.len() != "widgets.clock.cities.paris"@.len());
    }
    assert("widgets.clock.cities.sao_paulo"@ != "widgets.clock.cities.london"@) by {
        reveal_strlit("widgets.clock.cities.sao_paulo");
        reveal_strlit("widgets.clock.cities.london");
        assert("widgets.clock.cities.sao_paulo"@.len() != "widgets.clock.cities.london"@.len());
    }
    assert("widgets.clock.cities.sao_paulo"@ != "widgets.clock.cities.berlin"@) by {
        reveal_strlit("widgets.clock.cities.sao_paulo");
        reveal_strlit("widgets.clock.cities.berlin");
        assert("widgets.clock.cities.sao_paulo"@.len() != "widgets.clock.cities.berlin"@.len());
    }
    assert("widgets.clock.cities.sao_paulo"@ != "widgets.clock.cities.moscow"@) by {
        reveal_strlit("widgets.clock.cities.sao_paulo");
        reveal_strlit("widgets.clock.cities.moscow");
        assert("widgets.clock.cities.sao_paulo"@.len() != "widgets.clock.cities.moscow"@.len());
    }
    assert("widgets.clock.cities.sao_paulo"@ != "widgets.clock.cities.new_york"@) by {
        reveal_strlit("widgets.clock.cities.sao_paulo");
        reveal_strlit("widgets.clock.cities.new_york");
        assert("widgets.clock.cities.sao_paulo"@.len() != "widgets.clock.cities.new_york"@.len());
    }
    assert("widgets.clock.cities.sao_paulo"@ != "widgets.clock.cities.chicago"@) by {
        reveal_strlit("widgets.clock.cities.sao_paulo");
        reveal_strlit("widgets.clock.cities.chicago");
        assert("widgets.clock.cities.sao_paulo"@.len() != "widgets.clock.cities.chicago"@.len());
    }
    assert("widgets.clock.cities.sao_paulo"@ != "widgets.clock.cities.los_angeles"@) by {
        reveal_strlit("widgets.clock.cities.sao_paulo");
        reveal_strlit("widgets.clock.cities.los_angeles");
        assert("widgets.clock.cities.sao_paulo"@.len() != "widgets.clock.cities.los_angeles"@.len());
    }
    assert("widgets.clock.cities.dubai"@ != "widgets.clock.cities.paris"@) by {
        reveal_strlit("widgets.clock.cities.dubai");
        reveal_strlit("widgets.clock.cities.paris");
        assert("widgets.clock.cities.dubai"@[21] != "widgets.clock.cities.paris"@[21]);
    }
    assert("widgets.clock.cities.dubai"@ != "widgets.clock.cities.london"@) by {
        reveal_strlit("widgets.clock.cities.dubai");
        reveal_strlit("widgets.clock.cities.london");
        assert("widgets.clock.cities.dubai"@.len() != "widgets.clock.cities.london"@.len());
    }
    assert("widgets.clock.cities.dubai"@ != "widgets.clock.cities.berlin"@) by {
        reveal_strlit("widgets.clock.cities.dubai");
        reveal_strlit("widgets.clock.cities.berlin");
        assert("widgets.clock.cities.dubai"@.len() != "widgets.clock.cities.berlin"@.len());
    }
    assert("widgets.clock.cities.dubai"@ != "widgets.clock.cities.moscow"@) by {
        reveal_strlit("widgets.clock.cities.dubai");
        reveal_strlit("widgets.clock.cities.moscow");
        assert("widgets.clock.cities.dubai"@.len() != "widgets.clock.cities.moscow"@.len());
    }
    assert("widgets.clock.cities.dubai"@ != "widgets.clock.cities.new_york"@) by {
        reveal_strlit("widgets.clock.cities.dubai");
        reveal_strlit("widgets.clock.cities.new_york");
        assert("widgets.clock.cities.dubai"@.len() != "widgets.clock.cities.new_york"@.len());
    }
    assert("widgets.clock.cities.dubai"@ != "widgets.clock.cities.chicago"@) by {
        reveal_strlit("widgets.clock.cities.dubai");
        reveal_strlit("widgets.clock.cities.chicago");
        assert("widgets.clock.cities.dubai"@.len() != "widgets.clock.cities.chicago"@.len());
    }
    assert("widgets.clock.cities.dubai"@ != "widgets.clock.cities.los_angeles"@) by {
        reveal_strlit("widgets.clock.cities.dubai");
        reveal_strlit("widgets.clock.cities.los_angeles");
        assert("widgets.clock.cities.dubai"@.len() != "widgets.clock.cities.los_angeles"@.len());
    }
    assert("widgets.clock.cities.dubai"@ != "widgets.clock.cities.sao_paulo"@) by {
        reveal_strlit("widgets.clock.cities.dubai");
        reveal_strlit("widgets.clock.cities.sao_paulo");
        assert("widgets.clock.cities.dubai"@.len() != "widgets.clock.cities.sao_paulo"@.len());
    }
    assert("widgets.clock.cities.tokyo"@ != "widgets.clock.cities.paris"@) by {
        reveal_strlit("widgets.clock.cities.tokyo");
        reveal_strlit("widgets.clock.cities.paris");
        assert("widgets.clock.cities.tokyo"@[21] != "widgets.clock.cities.paris"@[21]);
    }
    assert("widgets.clock.cities.tokyo"@ != "widgets.clock.cities.london"@) by {
        reveal_strlit("widgets.clock.cities.tokyo");
        reveal_strlit("widgets.clock.cities.london");
        assert("widgets.clock.cities.tokyo"@.len() != "widgets.clock.cities.london"@.len());
    }
    assert("widgets.clock.cities.tokyo"@ != "widgets.clock.cities.berlin"@) by {
        reveal_strlit("widgets.clock.cities.tokyo");
        reveal_strlit("widgets.clock.cities.berlin");
        assert("widgets.clock.cities.tokyo"@.len() != "widgets.clock.cities.berlin"@.len());
    }
    assert("widgets.clock.cities.tokyo"@ != "widgets.clock.cities.moscow"@) by {
        reveal_strlit("widgets.clock.cities.tokyo");
        reveal_strlit("widgets.clock.cities.moscow");
        assert("widgets.clock.cities.tokyo"@.len() != "widgets.clock.cities.moscow"@.len());
    }
    assert("widgets.clock.cities.tokyo"@ != "widgets.clock.cities.new_york"@) by {
        reveal_strlit("widgets.clock.cities.tokyo");
        reveal_strlit("widgets.clock.cities.new_york");
        assert("widgets.clock.cities.tokyo"@.len() != "widgets.clock.cities.new_york"@.len());
    }
    assert("widgets.clock.cities.tokyo"@ != "widgets.clock.cities.chicago"@) by {
        reveal_strlit("widgets.clock.cities.tokyo");
        reveal_strlit("widgets.clock.cities.chicago");
        assert("widgets.clock.cities.tokyo"@.len() != "widgets.clock.cities.chicago"@.len());
    }
    assert("widgets.clock.cities.tokyo"@ != "widgets.clock.cities.los_angeles"@) by {
        reveal_strlit("widgets.clock.cities.tokyo");
        reveal_strlit("widgets.clock.cities.los_angeles");
        assert("widgets.clock.cities.tokyo"@.len() != "widgets.clock.cities.los_angeles"@.len());
    }
    assert("widgets.clock.cities.tokyo"@ != "widgets.clock.cities.sao_paulo"@) by {
        reveal_strlit("widgets.clock.cities.tokyo");
        reveal_strlit("widgets.clock.cities.sao_paulo");
        assert("widgets.clock.cities.tokyo"@.len() != "widgets.clock.cities.sao_paulo"@.len());
    }
    assert("widgets.clock.cities.tokyo"@ != "widgets.clock.cities.dubai"@) by {
        reveal_strlit("widgets.clock.cities.tokyo");
        reveal_strlit("widgets.clock.cities.dubai");
        assert("widgets.clock.cities.tokyo"@[21] != "widgets.clock.cities.dubai"@[21]);
    }
    assert("widgets.clock.cities.beijing"@ != "widgets.clock.cities.paris"@) by {
        reveal_strlit("widgets.clock.cities.beijing");
        reveal_strlit("widgets.clock.cities.paris");
        assert("widgets.clock.cities.beijing"@.len() != "widgets.clock.cities.paris"@.len());
    }
    assert("widgets.clock.cities.beijing"@ != "widgets.clock.cities.london"@) by {
        reveal_strlit("widgets.clock.cities.beijing");
        reveal_strlit("widgets.clock.cities.london");
        assert("widgets.clock.cities.beijing"@.len() != "widgets.clock.cities.london"@.len());
    }
    assert("widgets.clock.cities.beijing"@ != "widgets.clock.cities.berlin"@) by {
        reveal_strlit("widgets.clock.cities.beijing");
        reveal_strlit("widgets.clock.cities.berlin");
        assert("widgets.clock.cities.beijing"@.len() != "widgets.clock.cities.berlin"@.len());
    }
    assert("widgets.clock.cities.beijing"@ != "widgets.clock.cities.moscow"@) by {
        reveal_strlit("widgets.clock.cities.beijing");
        reveal_strlit("widgets.clock.cities.moscow");
        assert("widgets.clock.cities.beijing"@.len() != "widgets.clock.cities.moscow"@.len());
    }
    assert("widgets.clock.cities.beijing"@ != "widgets.clock.cities.new_york"@) by {
        reveal_strlit("widgets.clock.cities.beijing");
        reveal_strlit("widgets.clock.cities.new_york");
        assert("widgets.clock.cities.beijing"@.len() != "widgets.clock.cities.new_york"@.len());
    }
    assert("widgets.clock.cities.beijing"@ != "widgets.clock.cities.chicago"@) by {
        reveal_strlit("widgets.clock.cities.beijing");
        reveal_strlit("widgets.clock.cities.chicago");
        assert("widgets.clock.cities.beijing"@[21] != "widgets.clock.cities.chicago"@[21]);
    }
    assert("widgets.clock.cities.beijing"@ != "widgets.clock.cities.los_angeles"@) by {
        reveal_strlit("widgets.clock.cities.beijing");
        reveal_strlit("widgets.clock.cities.los_angeles");
        assert("widgets.clock.cities.beijing"@.len() != "widgets.clock.cities.los_angeles"@.len());
    }
    assert("widgets.clock.cities.beijing"@ != "widgets.clock.cities.sao_paulo"@) by {
        reveal_strlit("widgets.clock.cities.beijing");
        reveal_strlit("widgets.clock.cities.sao_paulo");
        assert("widgets.clock.cities.beijing"@.len() != "widgets.clock.cities.sao_paulo"@.len());
    }
    assert("widgets.clock.cities.beijing"@ != "widgets.clock.cities.dubai"@) by {
        reveal_strlit("widgets.clock.cities.beijing");
        reveal_strlit("widgets.clock.cities.dubai");
        assert("widgets.clock.cities.beijing"@.len() != "widgets.clock.cities.dubai"@.len());
    }
    assert("widgets.clock.cities.beijing"@ != "widgets.clock.cities.tokyo"@) by {
        reveal_strlit("widgets.clock.cities.beijing");
        reveal_strlit("widgets.clock.cities.tokyo");
        assert("widgets.clock.cities.beijing"@.len() != "widgets.clock.cities.tokyo"@.len());
    }
    assert("widgets.clock.cities.sydney"@ != "widgets.clock.cities.paris"@) by {
        reveal_strlit("widgets.clock.cities.sydney");
        reveal_strlit("widgets.clock.cities.paris");
        assert("widgets.clock.cities.sydney"@.len() != "widgets.clock.cities.paris"@.len());
    }
    assert("widgets.clock.cities.sydney"@ != "widgets.clock.cities.london"@) by {
        reveal_strlit("widgets.clock.cities.sydney");
        reveal_strlit("widgets.clock.cities.london");
        assert("widgets.clock.cities.sydney"@[21] != "widgets.clock.cities.london"@[21]);
    }
    assert("widgets.clock.cities.sydney"@ != "widgets.clock.cities.berlin"@) by {
        reveal_strlit("widgets.clock.cities.sydney");
        reveal_strlit("widgets.clock.cities.berlin");
        assert("widgets.clock.cities.sydney"@[21] != "widgets.clock.cities.berlin"@[21]);
    }
    assert("widgets.clock.cities.sydney"@ != "widgets.clock.cities.moscow"@) by {
        reveal_strlit("widgets.clock.cities.sydney");
        reveal_strlit("widgets.clock.cities.moscow");
        assert("widgets.clock.cities.sydney"@[21] != "widgets.clock.cities.moscow"@[21]);
    }
    assert("widgets.clock.cities.sydney"@ != "widgets.clock.cities.new_york"@) by {
        reveal_strlit("widgets.clock.cities.sydney");
        reveal_strlit("widgets.clock.cities.new_york");
        assert("widgets.clock.cities.sydney"@.len() != "widgets.clock.cities.new_york"@.len());
    }
    assert("widgets.clock.cities.sydney"@ != "widgets.clock.cities.chicago"@) by {
        reveal_strlit("widgets.clock.cities.sydney");
        reveal_strlit("widgets.clock.cities.chicago");
        assert("widgets.clock.cities.sydney"@.len() != "widgets.clock.cities.chicago"@.len());
    }
    assert("widgets.clock.cities.sydney"@ != "widgets.clock.cities.los_angeles"@) by {
        reveal_strlit("widgets.clock.cities.sydney");
        reveal_strlit("widgets.clock.cities.los_angeles");
        assert("widgets.clock.cities.sydney"@.len() != "widgets.clock.cities.los_angeles"@.len());
    }
    assert("widgets.clock.cities.sydney"@ != "widgets.clock.cities.sao_paulo"@) by {
        reveal_strlit("widgets.clock.cities.sydney");
        reveal_strlit("widgets.clock.cities.sao_paulo");
        assert("widgets.clock.cities.sydney"@.len() != "widgets.clock.cities.sao_paulo"@.len());
    }
    assert("widgets.clock.cities.sydney"@ != "widgets.clock.cities.dubai"@) by {
        reveal_strlit("widgets.clock.cities.sydney");
        reveal_strlit("widgets.clock.cities.dubai");
        assert("widgets.clock.cities.sydney"@.len() != "widgets.clock.cities.dubai"@.len());
    }
    assert("widgets.clock.cities.sydney"@ != "widgets.clock.cities.tokyo"@) by {
        reveal_strlit("widgets.clock.cities.sydney");
        reveal_strlit("widgets.clock.cities.tokyo");
        assert("widgets.clock.cities.sydney"@.len() != "widgets.clock.cities.tokyo"@.len());
    }
    assert("widgets.clock.cities.sydney"@ != "widgets.clock.cities.beijing"@) by {
        reveal_strlit("widgets.clock.cities.sydney");
        reveal_strlit("widgets.clock.cities.beijing");
        assert("widgets.clock.cities.sydney"@.len() != "widgets.clock.cities.beijing"@.len());
    }
}

/// No two city keys share a time zone: the zone tells the city.
pub proof fn lemma_city_zone_injective(a: Seq<char>, b: Seq<char>)
    ensures
        city_zone(a) is Some && city_zone(a) == city_zone(b) ==> a == b,
{
    assert("Europe/Paris"@ != "Europe/London"@) by {
        reveal_strlit("Europe/Paris");
        reveal_strlit("Europe/London");
        assert("Europe/Paris"@.len() != "Europe/London"@.len());
    }
    assert("Europe/Paris"@ != "Europe/Berlin"@) by {
        reveal_strlit("Europe/Paris");
        reveal_strlit("Europe/Berlin");
        assert("Europe/Paris"@.len() != "Europe/Berlin"@.len());
    }
    assert("Europe/Paris"@ != "Europe/Moscow"@) by {
        reveal_strlit("Europe/Paris");
        reveal_strlit("Europe/Moscow");
        assert("Europe/Paris"@.len() != "Europe/Moscow"@.len());
    }
    assert("Europe/Paris"@ != "America/New_York"@) by {
        reveal_strlit("Europe/Paris");
        reveal_strlit("America/New_York");
        assert("Europe/Paris"@.len() != "America/New_York"@.len());
    }
    assert("Europe/Paris"@ != "America/Chicago"@) by {
        reveal_strlit("Europe/Paris");
        reveal_strlit("America/Chicago");
        assert("Europe/Paris"@.len() != "America/Chicago"@.len());
    }
    assert("Europe/Paris"@ != "America/Los_Angeles"@) by {
        reveal_strlit("Europe/Paris");
        reveal_strlit("America/Los_Angeles");
        assert("Europe/Paris"@.len() != "America/Los_Angeles"@.len());
    }
    assert("Europe/Paris"@ != "America/Sao_Paulo"@) by {
        reveal_strlit("Europe/Paris");
        reveal_strlit("America/Sao_Paulo");
        assert("Europe/Paris"@.len() != "America/Sao_Paulo"@.len());
    }
    assert("Europe/Paris"@ != "Asia/Dubai"@) by {
        reveal_strlit("Europe/Paris");
        reveal_strlit("Asia/Dubai");
        assert("Europe/Paris"@.len() != "Asia/Dubai"@.len());
    }
    assert("Europe/Paris"@ != "Asia/Tokyo"@) by {
        reveal_strlit("Europe/Paris");
        reveal_strlit("Asia/Tokyo");
        assert("Europe/Paris"@.len() != "Asia/Tokyo"@.len());
    }
    assert("Europe/Paris"@ != "Asia/Shanghai"@) by {
        reveal_strlit("Europe/Paris");
        reveal_strlit("Asia/Shanghai");
        assert("Europe/Paris"@.len() != "Asia/Shanghai"@.len());
    }
    assert("Europe/Paris"@ != "Australia/Sydney"@) by {
        reveal_strlit("Europe/Paris");
        reveal_strlit("Australia/Sydney");
        assert("Europe/Paris"@.len() != "Australia/Sydney"@.len());
    }
    assert("Europe/London"@ != "Europe/Berlin"@) by {
        reveal_strlit("Europe/London");
        reveal_strlit("Europe/Berlin");
        assert("Europe/London"@[7] != "Europe/Berlin"@[7]);
    }
    assert("Europe/London"@ != "Europe/Moscow"@) by {
        reveal_strlit("Europe/London");
        reveal_strlit("Europe/Moscow");
        assert("Europe/London"@[7] != "Europe/Moscow"@[7]);
    }
    assert("Europe/London"@ != "America/New_York"@) by {
        reveal_strlit("Europe/London");
        reveal_strlit("America/New_York");
        assert("Europe/London"@.len() != "America/New_York"@.len());
    }
    assert("Europe/London"@ != "America/Chicago"@) by {
        reveal_strlit("Europe/London");
        reveal_strlit("America/Chicago");
        assert("Europe/London"@.len() != "America/Chicago"@.len());
    }
    assert("Europe/London"@ != "America/Los_Angeles"@) by {
        reveal_strlit("Europe/London");
        reveal_strlit("America/Los_Angeles");
        assert("Europe/London"@.len() != "America/Los_Angeles"@.len());
    }
    assert("Europe/London"@ != "America/Sao_Paulo"@) by {
        reveal_strlit("Europe/London");
        reveal_strlit("America/Sao_Paulo");
        assert("Europe/London"@.len() != "America/Sao_Paulo"@.len());
    }
    assert("Europe/London"@ != "Asia/Dubai"@) by {
        reveal_strlit("Europe/London");
        reveal_strlit("Asia/Dubai");
        assert("Europe/London"@.len() != "Asia/Dubai"@.len());
    }
    assert("Europe/London"@ != "Asia/Tokyo"@) by {
        reveal_strlit("Europe/London");
        reveal_strlit("Asia/Tokyo");
        assert("Europe/London"@.len() != "Asia/Tokyo"@.len());
    }
    assert("Europe/London"@ != "Asia/Shanghai"@) by {
        reveal_strlit("Europe/London");
        reveal_strlit("Asia/Shanghai");
        assert("Europe/London"@[0] != "Asia/Shanghai"@[0]);
    }
    assert("Europe/London"@ != "Australia/Sydney"@) by {
        reveal_strlit("Europe/London");
        reveal_strlit("Australia/Sydney");
        assert("Europe/London"@.len() != "Australia/Sydney"@.len());
    }
    assert("Europe/Berlin"@ != "Europe/Moscow"@) by {
        reveal_strlit("Europe/Berlin");
        reveal_strlit("Europe/Moscow");
        assert("Europe/Berlin"@[7] != "Europe/Moscow"@[7]);
    }
    assert("Europe/Berlin"@ != "America/New_York"@) by {
        reveal_strlit("Europe/Berlin");
        reveal_strlit("America/New_York");
        assert("Europe/Berlin"@.len() != "America/New_York"@.len());
    }
    assert("Europe/Berlin"@ != "America/Chicago"@) by {
        reveal_strlit("Europe/Berlin");
        reveal_strlit("America/Chicago");
        assert("Europe/Berlin"@.len() != "America/Chicago"@.len());
    }
    assert("Europe/Berlin"@ != "America/Los_Angeles"@) by {
        reveal_strlit("Europe/Berlin");
        reveal_strlit("America/Los_Angeles");
        assert("Europe/Berlin"@.len() != "America/Los_Angeles"@.len());
    }
    assert("Europe/Berlin"@ != "America/Sao_Paulo"@) by {
        reveal_strlit("Europe/Berlin");
        reveal_strlit("America/Sao_Paulo");
        assert("Europe/Berlin"@.len() != "America/Sao_Paulo"@.len());
    }
    assert("Europe/Berlin"@ != "Asia/Dubai"@) by {
        reveal_strlit("Europe/Berlin");
        reveal_strlit("Asia/Dubai");
        assert("Europe/Berlin"@.len() != "Asia/Dubai"@.len());
    }
    assert("Europe/Berlin"@ != "Asia/Tokyo"@) by {
        reveal_strlit("Europe/Berlin");
        reveal_strlit("Asia/Tokyo");
        assert("Europe/Berlin"@.len() != "Asia/Tokyo"@.len());
    }
    assert("Europe/Berlin"@ != "Asia/Shanghai"@) by {
        reveal_strlit("Europe/Berlin");
        reveal_strlit("Asia/Shanghai");
        assert("Europe/Berlin"@[0] != "Asia/Shanghai"@[0]);
    }
    assert("Europe/Berlin"@ != "Australia/Sydney"@) by {
        reveal_strlit("Europe/Berlin");
        reveal_strlit("Australia/Sydney");
        assert("Europe/Berlin"@.len() != "Australia/Sydney"@.len());
    }
    assert("Europe/Moscow"@ != "America/New_York"@) by {
        reveal_strlit("Europe/Moscow");
        reveal_strlit("America/New_York");
        assert("Europe/Moscow"@.len() != "America/New_York"@.len());
    }
    assert("Europe/Moscow"@ != "America/Chicago"@) by {
        reveal_strlit("Europe/Moscow");
        reveal_strlit("America/Chicago");
        assert("Europe/Moscow"@.len() != "America/Chicago"@.len());
    }
    assert("Europe/Moscow"@ != "America/Los_Angeles"@) by {
        reveal_strlit("Europe/Moscow");
        reveal_strlit("America/Los_Angeles");
        assert("Europe/Moscow"@.len() != "America/Los_Angeles"@.len());
    }
    assert("Europe/Moscow"@ != "America/Sao_Paulo"@) by {
        reveal_strlit("Europe/Moscow");
        reveal_strlit("America/Sao_Paulo");
        assert("Europe/Moscow"@.len() != "America/Sao_Paulo"@.len());
    }
    assert("Europe/Moscow"@ != "Asia/Dubai"@) by {
        reveal_strlit("Europe/Moscow");
        reveal_strlit("Asia/Dubai");
        assert("Europe/Moscow"@.len() != "Asia/Dubai"@.len());
    }
    assert("Europe/Moscow"@ != "Asia/Tokyo"@) by {
        reveal_strlit("Europe/Moscow");
        reveal_strlit("Asia/Tokyo");
        assert("Europe/Moscow"@.len() != "Asia/Tokyo"@.len());
    }
    assert("Europe/Moscow"@ != "Asia/Shanghai"@) by {
        reveal_strlit("Europe/Moscow");
        reveal_strlit("Asia/Shanghai");
        assert("Europe/Moscow"@[0] != "Asia/Shanghai"@[0]);
    }
    assert("Europe/Moscow"@ != "Australia/Sydney"@) by {
        reveal_strlit("Europe/Moscow");
        reveal_strlit("Australia/Sydney");
        assert("Europe/Moscow"@.len() != "Australia/Sydney"@.len());
    }
    assert("America/New_York"@ != "America/Chicago"@) by {
        reveal_strlit("America/New_York");
        reveal_strlit("America/Chicago");
        assert("America/New_York"@.len() != "America/Chicago"@.len());
    }
    assert("America/New_York"@ != "America/Los_Angeles"@) by {
        reveal_strlit("America/New_York");
        reveal_strlit("America/Los_Angeles");
        assert("America/New_York"@.len() != "America/Los_Angeles"@.len());
    }
    assert("America/New_York"@ != "America/Sao_Paulo"@) by {
        reveal_strlit("America/New_York");
        reveal_strlit("America/Sao_Paulo");
        assert("America/New_York"@.len() != "America/Sao_Paulo"@.len());
    }
    assert("America/New_York"@ != "Asia/Dubai"@) by {
        reveal_strlit("America/New_York");
        reveal_strlit("Asia/Dubai");
        assert("America/New_York"@.len() != "Asia/Dubai"@.len());
    }
    assert("America/New_York"@ != "Asia/Tokyo"@) by {
        reveal_strlit("America/New_York");
        reveal_strlit("Asia/Tokyo");
        assert("America/New_York"@.len() != "Asia/Tokyo"@.len());
    }
    assert("America/New_York"@ != "Asia/Shanghai"@) by {
        reveal_strlit("America/New_York");
        reveal_strlit("Asia/Shanghai");
        assert("America/New_York"@.len() != "Asia/Shanghai"@.len());
    }
    assert("America/New_York"@ != "Australia/Sydney"@) by {
        reveal_strlit("America/New_York");
        reveal_strlit("Australia/Sydney");
        assert("America/New_York"@[1] != "Australia/Sydney"@[1]);
    }
    assert("America/Chicago"@ != "America/Los_Angeles"@) by {
        reveal_strlit("America/Chicago");
        reveal_strlit("America/Los_Angeles");
        assert("America/Chicago"@.len() != "America/Los_Angeles"@.len());
    }
    assert("America/Chicago"@ != "America/Sao_Paulo"@) by {
        reveal_strlit("America/Chicago");
        reveal_strlit("America/Sao_Paulo");
        assert("America/Chicago"@.len() != "America/Sao_Paulo"@.len());
    }
    assert("America/Chicago"@ != "Asia/Dubai"@) by {
        reveal_strlit("America/Chicago");
        reveal_strlit("Asia/Dubai");
        assert("America/Chicago"@.len() != "Asia/Dubai"@.len());
    }
    assert("America/Chicago"@ != "Asia/Tokyo"@) by {
        reveal_strlit("America/Chicago");
        reveal_strlit("Asia/Tokyo");
        assert("America/Chicago"@.len() != "Asia/Tokyo"@.len());
    }
    assert("America/Chicago"@ != "Asia/Shanghai"@) by {
        reveal_strlit("America/Chicago");
        reveal_strlit("Asia/Shanghai");
        assert("America/Chicago"@.len() != "Asia/Shanghai"@.len());
    }
    assert("America/Chicago"@ != "Australia/Sydney"@) by {
        reveal_strlit("America/Chicago");
        reveal_strlit("Australia/Sydney");
        assert("America/Chicago"@.len() != "Australia/Sydney"@.len());
    }
    assert("America/Los_Angeles"@ != "America/Sao_Paulo"@) by {
        reveal_strlit("America/Los_Angeles");
        reveal_strlit("America/Sao_Paulo");
        assert("America/Los_Angeles"@.len() != "America/Sao_Paulo"@.len());
    }
    assert("America/Los_Angeles"@ != "Asia/Dubai"@) by {
        reveal_strlit("America/Los_Angeles");
        reveal_strlit("Asia/Dubai");
        assert("America/Los_Angeles"@.len() != "Asia/Dubai"@.len());
    }
    assert("America/Los_Angeles"@ != "Asia/Tokyo"@) by {
        reveal_strlit("America/Los_Angeles");
        reveal_strlit("Asia/Tokyo");
        assert("America/Los_Angeles"@.len() != "Asia/Tokyo"@.len());
    }
    assert("America/Los_Angeles"@ != "Asia/Shanghai"@) by {
        reveal_strlit("America/Los_Angeles");
        reveal_strlit("Asia/Shanghai");
        assert("America/Los_Angeles"@.len() != "Asia/Shanghai"@.len());
    }
    assert("America/Los_Angeles"@ != "Australia/Sydney"@) by {
        reveal_strlit("America/Los_Angeles");
        reveal_strlit("Australia/Sydney");
        assert("America/Los_Angeles"@.len() != "Australia/Sydney"@.len());
    }
    assert("America/Sao_Paulo"@ != "Asia/Dubai"@) by {
        reveal_strlit("America/Sao_Paulo");
        reveal_strlit("Asia/Dubai");
        assert("America/Sao_Paulo"@.len() != "Asia/Dubai"@.len());
    }
    assert("America/Sao_Paulo"@ != "Asia/Tokyo"@) by {
        reveal_strlit("America/Sao_Paulo");
        reveal_strlit("Asia/Tokyo");
        assert("America/Sao_Paulo"@.len() != "Asia/Tokyo"@.len());
    }
    assert("America/Sao_Paulo"@ != "Asia/Shanghai"@) by {
        reveal_strlit("America/Sao_Paulo");
        reveal_strlit("Asia/Shanghai");
        assert("America/Sao_Paulo"@.len() != "Asia/Shanghai"@.len());
    }
    assert("America/Sao_Paulo"@ != "Australia/Sydney"@) by {
        reveal_strlit("America/Sao_Paulo");
        reveal_strlit("Australia/Sydney");
        assert("America/Sao_Paulo"@.len() != "Australia/Sydney"@.len());
    }
    assert("Asia/Dubai"@ != "Asia/Tokyo"@) by {
        reveal_strlit("Asia/Dubai");
        reveal_strlit("Asia/Tokyo");
        assert("Asia/Dubai"@[5] != "Asia/Tokyo"@[5]);
    }
    assert("Asia/Dubai"@ != "Asia/Shanghai"@) by {
        reveal_strlit("Asia/Dubai");
        reveal_strlit("Asia/Shanghai");
        assert("Asia/Dubai"@.len() != "Asia/Shanghai"@.len());
    }
    assert("Asia/Dubai"@ != "Australia/Sydney"@) by {
        reveal_strlit("Asia/Dubai");
        reveal_strlit("Australia/Sydney");
        assert("Asia/Dubai"@.len() != "Australia/Sydney"@.len());
    }
    assert("Asia/Tokyo"@ != "Asia/Shanghai"@) by {
        reveal_strlit("Asia/Tokyo");
        reveal_strlit("Asia/Shanghai");
        assert("Asia/Tokyo"@.len() != "Asia/Shanghai"@.len());
    }
    assert("Asia/Tokyo"@ != "Australia/Sydney"@) by {
        reveal_strlit("Asia/Tokyo");
        reveal_strlit("Australia/Sydney");
        assert("Asia/Tokyo"@.len() != "Australia/Sydney"@.len());
    }
    assert("Asia/Shanghai"@ != "Australia/Sydney"@) by {
        reveal_strlit("Asia/Shanghai");
        reveal_strlit("Australia/Sydney");
        assert("Asia/Shanghai"@.len() != "Australia/Sydney"@.len());
    }
}

} // verus!
