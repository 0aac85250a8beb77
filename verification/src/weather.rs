//! The weather widget's condition table and location caption.
use vstd::prelude::*;

use crate::text::{chars_of, push_str, string_of, text_equals};

verus! {

/// WMO weather code to (condition key, day icon, night icon); codes not in
/// the table are `unknown`, with an alert icon.
pub open spec fn weather_info(code: i64) -> (Seq<char>, Seq<char>, Seq<char>) {
    match code {
        0 => ("clear"@, "weather-clear-symbolic"@, "weather-clear-night-symbolic"@),
        1 => ("mainly_clear"@, "weather-few-clouds-symbolic"@, "weather-few-clouds-night-symbolic"@),
        2 => ("partly_cloudy"@, "weather-few-clouds-symbolic"@, "weather-few-clouds-night-symbolic"@),
        3 => ("overcast"@, "weather-overcast-symbolic"@, "weather-overcast-symbolic"@),
        45 => ("fog"@, "weather-fog-symbolic"@, "weather-fog-symbolic"@),
        48 => ("fog"@, "weather-fog-symbolic"@, "weather-fog-symbolic"@),
        51 => ("drizzle"@, "weather-showers-scattered-symbolic"@, "weather-showers-scattered-symbolic"@),
        53 => ("drizzle"@, "weather-showers-scattered-symbolic"@, "weather-showers-scattered-symbolic"@),
        55 => ("drizzle"@, "weather-showers-scattered-symbolic"@, "weather-showers-scattered-symbolic"@),
        56 => ("freezing_drizzle"@, "weather-showers-scattered-symbolic"@, "weather-showers-scattered-symbolic"@),
        57 => ("freezing_drizzle"@, "weather-showers-scattered-symbolic"@, "weather-showers-scattered-symbolic"@),
        61 => ("rain"@, "weather-showers-symbolic"@, "weather-showers-symbolic"@),
        63 => ("rain"@, "weather-showers-symbolic"@, "weather-showers-symbolic"@),
        65 => ("heavy_rain"@, "weather-showers-symbolic"@, "weather-showers-symbolic"@),
        66 => ("freezing_rain"@, "weather-showers-symbolic"@, "weather-showers-symbolic"@),
        67 => ("freezing_rain"@, "weather-showers-symbolic"@, "weather-showers-symbolic"@),
        71 => ("snow"@, "weather-snow-symbolic"@, "weather-snow-symbolic"@),
        73 => ("snow"@, "weather-snow-symbolic"@, "weather-snow-symbolic"@),
        75 => ("heavy_snow"@, "weather-snow-symbolic"@, "weather-snow-symbolic"@),
        77 => ("snow_grains"@, "weather-snow-symbolic"@, "weather-snow-symbolic"@),
        80 => ("rain_showers"@, "weather-showers-symbolic"@, "weather-showers-symbolic"@),
        81 => ("rain_showers"@, "weather-showers-symbolic"@, "weather-showers-symbolic"@),
        82 => ("heavy_rain_showers"@, "weather-showers-symbolic"@, "weather-showers-symbolic"@),
        85 => ("snow_showers"@, "weather-snow-symbolic"@, "weather-snow-symbolic"@),
        86 => ("snow_showers"@, "weather-snow-symbolic"@, "weather-snow-symbolic"@),
        95 => ("thunderstorm"@, "weather-storm-symbolic"@, "weather-storm-symbolic"@),
        96 => ("thunderstorm_hail"@, "weather-storm-symbolic"@, "weather-storm-symbolic"@),
        99 => ("thunderstorm_hail"@, "weather-storm-symbolic"@, "weather-storm-symbolic"@),
        _ => ("unknown"@, "weather-severe-alert-symbolic"@, "weather-severe-alert-symbolic"@),
    }
}

/// The condition key and the day and night icons of a WMO weather code.
pub fn weather_code_info(code: i64) -> (r: (&'static str, &'static str, &'static str))
    ensures
        (r.0@, r.1@, r.2@) == weather_info(code),
{
    match code {
        0 => ("clear", "weather-clear-symbolic", "weather-clear-night-symbolic"),
        1 => ("mainly_clear", "weather-few-clouds-symbolic", "weather-few-clouds-night-symbolic"),
        2 => ("partly_cloudy", "weather-few-clouds-symbolic", "weather-few-clouds-night-symbolic"),
        3 => ("overcast", "weather-overcast-symbolic", "weather-overcast-symbolic"),
        45 => ("fog", "weather-fog-symbolic", "weather-fog-symbolic"),
        48 => ("fog", "weather-fog-symbolic", "weather-fog-symbolic"),
        51 => ("drizzle", "weather-showers-scattered-symbolic", "weather-showers-scattered-symbolic"),
        53 => ("drizzle", "weather-showers-scattered-symbolic", "weather-showers-scattered-symbolic"),
        55 => ("drizzle", "weather-showers-scattered-symbolic", "weather-showers-scattered-symbolic"),
        56 => ("freezing_drizzle", "weather-showers-scattered-symbolic", "weather-showers-scattered-symbolic"),
        57 => ("freezing_drizzle", "weather-showers-scattered-symbolic", "weather-showers-scattered-symbolic"),
        61 => ("rain", "weather-showers-symbolic", "weather-showers-symbolic"),
        63 => ("rain", "weather-showers-symbolic", "weather-showers-symbolic"),
        65 => ("heavy_rain", "weather-showers-symbolic", "weather-showers-symbolic"),
        66 => ("freezing_rain", "weather-showers-symbolic", "weather-showers-symbolic"),
        67 => ("freezing_rain", "weather-showers-symbolic", "weather-showers-symbolic"),
        71 => ("snow", "weather-snow-symbolic", "weather-snow-symbolic"),
        73 => ("snow", "weather-snow-symbolic", "weather-snow-symbolic"),
        75 => ("heavy_snow", "weather-snow-symbolic", "weather-snow-symbolic"),
        77 => ("snow_grains", "weather-snow-symbolic", "weather-snow-symbolic"),
        80 => ("rain_showers", "weather-showers-symbolic", "weather-showers-symbolic"),
        81 => ("rain_showers", "weather-showers-symbolic", "weather-showers-symbolic"),
        82 => ("heavy_rain_showers", "weather-showers-symbolic", "weather-showers-symbolic"),
        85 => ("snow_showers", "weather-snow-symbolic", "weather-snow-symbolic"),
        86 => ("snow_showers", "weather-snow-symbolic", "weather-snow-symbolic"),
        95 => ("thunderstorm", "weather-storm-symbolic", "weather-storm-symbolic"),
        96 => ("thunderstorm_hail", "weather-storm-symbolic", "weather-storm-symbolic"),
        99 => ("thunderstorm_hail", "weather-storm-symbolic", "weather-storm-symbolic"),
        _ => ("unknown", "weather-severe-alert-symbolic", "weather-severe-alert-symbolic"),
    }
}

/// `City, Region, Country`: the region only when it is non-empty and not
/// the city's own name, the country only when non-empty.
pub open spec fn location_text(name: Seq<char>, admin1: Seq<char>, country: Seq<char>) -> Seq<char> {
    let with_region = if admin1.len() > 0 && admin1 != name {
        name + ", "@ + admin1
    } else {
        name
    };
    if country.len() > 0 {
        with_region + ", "@ + country
    } else {
        with_region
    }
}

/// The caption of a location.
pub fn format_location(name: &str, admin1: &str, country: &str) -> (r: String)
    ensures
        r@ == location_text(name@, admin1@, country@),
{
    let a = chars_of(admin1);
    let c = chars_of(country);
    let mut v: Vec<char> = Vec::new();
    push_str(&mut v, name);
    if a.len() > 0 && !text_equals(name, &a) {
        push_str(&mut v, ", ");
        push_str(&mut v, admin1);
    }
    if c.len() > 0 {
        push_str(&mut v, ", ");
        push_str(&mut v, country);
    }
    assert(v@ =~= location_text(name@, admin1@, country@));
    string_of(&v)
}


/// Where the last forecast request stands.
#[derive(Debug, Clone, Copy, PartialEq, Eq, Structural)]
pub enum FetchStatus {
    Loading,
    Loaded,
    Failed,
}

/// The condition icon and the translation key of its hover text: for a
/// reading, the day or night icon of its weather code and that code's
/// condition; while loading, a clear-sky icon; after a failure, an alert.
pub open spec fn status_look(status: FetchStatus, code: i64, is_day: bool) -> (Seq<char>, Seq<char>) {
    match status {
        FetchStatus::Loaded => {
            let (condition, day_icon, night_icon) = weather_info(code);
            (if is_day {
                day_icon
            } else {
                night_icon
            }, "widgets.weather.conditions."@ + condition)
        },
        FetchStatus::Loading => ("weather-clear-symbolic"@, "widgets.weather.loading"@),
        FetchStatus::Failed => ("weather-severe-alert-symbolic"@, "widgets.weather.error"@),
    }
}

/// The condition icon and the key of its hover text for the request
/// status `status` (with the reading's weather code, `-1` when none, and
/// whether it is day).
pub fn condition_look(status: FetchStatus, code: i64, is_day: bool) -> (r: (&'static str, String))
    ensures
        (r.0@, r.1@) == status_look(status, code, is_day),
{
    match status {
        FetchStatus::Loaded => {
            let (condition, day_icon, night_icon) = weather_code_info(code);
            let key = crate::text::concat("widgets.weather.conditions.", condition);
            (if is_day {
                day_icon
            } else {
                night_icon
            }, key)
        },
        FetchStatus::Loading => ("weather-clear-symbolic", string_of(&chars_of("widgets.weather.loading"))),
        FetchStatus::Failed => ("weather-severe-alert-symbolic", string_of(&chars_of("widgets.weather.error"))),
    }
}

/// Whether the WMO code `code` reports snow: snowfall (71, 73, 75), snow
/// grains (77) or snow showers (85, 86).
pub open spec fn snow_code(code: i64) -> bool {
    71 <= code <= 86 && (code == 71 || code == 73 || code == 75 || code == 77 || code == 85 || code == 86)
}

/// Light and moderate rain (61, 63) are shown as `rain` with the shower
/// icons.
pub proof fn lemma_weather_rain_codes()
    ensures
        weather_info(61) == ("rain"@, "weather-showers-symbolic"@, "weather-showers-symbolic"@),
        weather_info(63) == ("rain"@, "weather-showers-symbolic"@, "weather-showers-symbolic"@),
{
}

/// The snow icon, by day and by night, is shown exactly for the snow
/// codes, all of them between 71 and 86.
pub proof fn lemma_weather_snow_icon(code: i64)
    ensures
        weather_info(code).1 == "weather-snow-symbolic"@ <==> snow_code(code),
        weather_info(code).2 == "weather-snow-symbolic"@ <==> snow_code(code),
        snow_code(code) ==> 71 <= code <= 86,
{
    assert("weather-clear-symbolic"@ != "weather-snow-symbolic"@) by {
        reveal_strlit("weather-clear-symbolic");
        reveal_strlit("weather-snow-symbolic");
        assert("weather-clear-symbolic"@.len() != "weather-snow-symbolic"@.len());
    }
    assert("weather-clear-night-symbolic"@ != "weather-snow-symbolic"@) by {
        reveal_strlit("weather-clear-night-symbolic");
        reveal_strlit("weather-snow-symbolic");
        assert("weather-clear-night-symbolic"@.len() != "weather-snow-symbolic"@.len());
    }
    assert("weather-few-clouds-symbolic"@ != "weather-snow-symbolic"@) by {
        reveal_strlit("weather-few-clouds-symbolic");
        reveal_strlit("weather-snow-symbolic");
        assert("weather-few-clouds-symbolic"@.len() != "weather-snow-symbolic"@.len());
    }
    assert("weather-few-clouds-night-symbolic"@ != "weather-snow-symbolic"@) by {
        reveal_strlit("weather-few-clouds-night-symbolic");
        reveal_strlit("weather-snow-symbolic");
        assert("weather-few-clouds-night-symbolic"@.len() != "weather-snow-symbolic"@.len());
    }
    assert("weather-overcast-symbolic"@ != "weather-snow-symbolic"@) by {
        reveal_strlit("weather-overcast-symbolic");
        reveal_strlit("weather-snow-symbolic");
        assert("weather-overcast-symbolic"@.len() != "weather-snow-symbolic"@.len());
    }
    assert("weather-fog-symbolic"@ != "weather-snow-symbolic"@) by {
        reveal_strlit("weather-fog-symbolic");
        reveal_strlit("weather-snow-symbolic");
        assert("weather-fog-symbolic"@.len() != "weather-snow-symbolic"@.len());
    }
    assert("weather-showers-scattered-symbolic"@ != "weather-snow-symbolic"@) by {
        reveal_strlit("weather-showers-scattered-symbolic");
        reveal_strlit("weather-snow-symbolic");
        assert("weather-showers-scattered-symbolic"@.len() != "weather-snow-symbolic"@.len());
    }
    assert("weather-showers-symbolic"@ != "weather-snow-symbolic"@) by {
        reveal_strlit("weather-showers-symbolic");
        reveal_strlit("weather-snow-symbolic");
        assert("weather-showers-symbolic"@.len() != "weather-snow-symbolic"@.len());
    }
    assert("weather-storm-symbolic"@ != "weather-snow-symbolic"@) by {
        reveal_strlit("weather-storm-symbolic");
        reveal_strlit("weather-snow-symbolic");
        assert("weather-storm-symbolic"@.len() != "weather-snow-symbolic"@.len());
    }
    assert("weather-severe-alert-symbolic"@ != "weather-snow-symbolic"@) by {
        reveal_strlit("weather-severe-alert-symbolic");
        reveal_strlit("weather-snow-symbolic");
        assert("weather-severe-alert-symbolic"@.len() != "weather-snow-symbolic"@.len());
    }
}

/// The snow conditions (`snow`, `heavy_snow`, `snow_grains`,
/// `snow_showers`) are shown exactly for the snow codes.
pub proof fn lemma_weather_snow_condition(code: i64)
    ensures
        (weather_info(code).0 == "snow"@ || weather_info(code).0 == "heavy_snow"@ || weather_info(code).0
            == "snow_grains"@ || weather_info(code).0 == "snow_showers"@) <==> snow_code(code),
{
    assert("clear"@ != "snow"@) by {
        reveal_strlit("clear");
        reveal_strlit("snow");
        assert("clear"@.len() != "snow"@.len());
    }
    assert("clear"@ != "heavy_snow"@) by {
        reveal_strlit("clear");
        reveal_strlit("heavy_snow");
        assert("clear"@.len() != "heavy_snow"@.len());
    }
    assert("clear"@ != "snow_grains"@) by {
        reveal_strlit("clear");
        reveal_strlit("snow_grains");
        assert("clear"@.len() != "snow_grains"@.len());
    }
    assert("clear"@ != "snow_showers"@) by {
        reveal_strlit("clear");
        reveal_strlit("snow_showers");
        assert("clear"@.len() != "snow_showers"@.len());
    }
    assert("mainly_clear"@ != "snow"@) by {
        reveal_strlit("mainly_clear");
        reveal_strlit("snow");
        assert("mainly_clear"@.len() != "snow"@.len());
    }
    assert("mainly_clear"@ != "heavy_snow"@) by {
        reveal_strlit("mainly_clear");
        reveal_strlit("heavy_snow");
        assert("mainly_clear"@.len() != "heavy_snow"@.len());
    }
    assert("mainly_clear"@ != "snow_grains"@) by {
        reveal_strlit("mainly_clear");
        reveal_strlit("snow_grains");
        assert("mainly_clear"@.len() != "snow_grains"@.len());
    }
    assert("mainly_clear"@ != "snow_showers"@) by {
        reveal_strlit("mainly_clear");
        reveal_strlit("snow_showers");
        assert("mainly_clear"@[0] != "snow_showers"@[0]);
    }
    assert("partly_cloudy"@ != "snow"@) by {
        reveal_strlit("partly_cloudy");
        reveal_strlit("snow");
        assert("partly_cloudy"@.len() != "snow"@.len());
    }
    assert("partly_cloudy"@ != "heavy_snow"@) by {
        reveal_strlit("partly_cloudy");
        reveal_strlit("heavy_snow");
        assert("partly_cloudy"@.len() != "heavy_snow"@.len());
    }
    assert("partly_cloudy"@ != "snow_grains"@) by {
        reveal_strlit("partly_cloudy");
        reveal_strlit("snow_grains");
        assert("partly_cloudy"@.len() != "snow_grains"@.len());
    }
    assert("partly_cloudy"@ != "snow_showers"@) by {
        reveal_strlit("partly_cloudy");
        reveal_strlit("snow_showers");
        assert("partly_cloudy"@.len() != "snow_showers"@.len());
    }
    assert("overcast"@ != "snow"@) by {
        reveal_strlit("overcast");
        reveal_strlit("snow");
        assert("overcast"@.len() != "snow"@.len());
    }
    assert("overcast"@ != "heavy_snow"@) by {
        reveal_strlit("overcast");
        reveal_strlit("heavy_snow");
        assert("overcast"@.len() != "heavy_snow"@.len());
    }
    assert("overcast"@ != "snow_grains"@) by {
        reveal_strlit("overcast");
        reveal_strlit("snow_grains");
        assert("overcast"@.len() != "snow_grains"@.len());
    }
    assert("overcast"@ != "snow_showers"@) by {
        reveal_strlit("overcast");
        reveal_strlit("snow_showers");
        assert("overcast"@.len() != "snow_showers"@.len());
    }
    assert("fog"@ != "snow"@) by {
        reveal_strlit("fog");
        reveal_strlit("snow");
        assert("fog"@.len() != "snow"@.len());
    }
    assert("fog"@ != "heavy_snow"@) by {
        reveal_strlit("fog");
        reveal_strlit("heavy_snow");
        assert("fog"@.len() != "heavy_snow"@.len());
    }
    assert("fog"@ != "snow_grains"@) by {
        reveal_strlit("fog");
        reveal_strlit("snow_grains");
        assert("fog"@.len() != "snow_grains"@.len());
    }
    assert("fog"@ != "snow_showers"@) by {
        reveal_strlit("fog");
        reveal_strlit("snow_showers");
        assert("fog"@.len() != "snow_showers"@.len());
    }
    assert("drizzle"@ != "snow"@) by {
        reveal_strlit("drizzle");
        reveal_strlit("snow");
        assert("drizzle"@.len() != "snow"@.len());
    }
    assert("drizzle"@ != "heavy_snow"@) by {
        reveal_strlit("drizzle");
        reveal_strlit("heavy_snow");
        assert("drizzle"@.len() != "heavy_snow"@.len());
    }
    assert("drizzle"@ != "snow_grains"@) by {
        reveal_strlit("drizzle");
        reveal_strlit("snow_grains");
        assert("drizzle"@.len() != "snow_grains"@.len());
    }
    assert("drizzle"@ != "snow_showers"@) by {
        reveal_strlit("drizzle");
        reveal_strlit("snow_showers");
        assert("drizzle"@.len() != "snow_showers"@.len());
    }
    assert("freezing_drizzle"@ != "snow"@) by {
        reveal_strlit("freezing_drizzle");
        reveal_strlit("snow");
        assert("freezing_drizzle"@.len() != "snow"@.len());
    }
    assert("freezing_drizzle"@ != "heavy_snow"@) by {
        reveal_strlit("freezing_drizzle");
        reveal_strlit("heavy_snow");
        assert("freezing_drizzle"@.len() != "heavy_snow"@.len());
    }
    assert("freezing_drizzle"@ != "snow_grains"@) by {
        reveal_strlit("freezing_drizzle");
        reveal_strlit("snow_grains");
        assert("freezing_drizzle"@.len() != "snow_grains"@.len());
    }
    assert("freezing_drizzle"@ != "snow_showers"@) by {
        reveal_strlit("freezing_drizzle");
        reveal_strlit("snow_showers");
        assert("freezing_drizzle"@.len() != "snow_showers"@.len());
    }
    assert("rain"@ != "snow"@) by {
        reveal_strlit("rain");
        reveal_strlit("snow");
        assert("rain"@[0] != "snow"@[0]);
    }
    assert("rain"@ != "heavy_snow"@) by {
        reveal_strlit("rain");
        reveal_strlit("heavy_snow");
        assert("rain"@.len() != "heavy_snow"@.len());
    }
    assert("rain"@ != "snow_grains"@) by {
        reveal_strlit("rain");
        reveal_strlit("snow_grains");
        assert("rain"@.len() != "snow_grains"@.len());
    }
    assert("rain"@ != "snow_showers"@) by {
        reveal_strlit("rain");
        reveal_strlit("snow_showers");
        assert("rain"@.len() != "snow_showers"@.len());
    }
    assert("heavy_rain"@ != "snow"@) by {
        reveal_strlit("heavy_rain");
        reveal_strlit("snow");
        assert("heavy_rain"@.len() != "snow"@.len());
    }
    assert("heavy_rain"@ != "heavy_snow"@) by {
        reveal_strlit("heavy_rain");
        reveal_strlit("heavy_snow");
        assert("heavy_rain"@[6] != "heavy_snow"@[6]);
    }
    assert("heavy_rain"@ != "snow_grains"@) by {
        reveal_strlit("heavy_rain");
        reveal_strlit("snow_grains");
        assert("heavy_rain"@.len() != "snow_grains"@.len());
    }
    assert("heavy_rain"@ != "snow_showers"@) by {
        reveal_strlit("heavy_rain");
        reveal_strlit("snow_showers");
        assert("heavy_rain"@.len() != "snow_showers"@.len());
    }
    assert("freezing_rain"@ != "snow"@) by {
        reveal_strlit("freezing_rain");
        reveal_strlit("snow");
        assert("freezing_rain"@.len() != "snow"@.len());
    }
    assert("freezing_rain"@ != "heavy_snow"@) by {
        reveal_strlit("freezing_rain");
        reveal_strlit("heavy_snow");
        assert("freezing_rain"@.len() != "heavy_snow"@.len());
    }
    assert("freezing_rain"@ != "snow_grains"@) by {
        reveal_strlit("freezing_rain");
        reveal_strlit("snow_grains");
        assert("freezing_rain"@.len() != "snow_grains"@.len());
    }
    assert("freezing_rain"@ != "snow_showers"@) by {
        reveal_strlit("freezing_rain");
        reveal_strlit("snow_showers");
        assert("freezing_rain"@.len() != "snow_showers"@.len());
    }
    assert("rain_showers"@ != "snow"@) by {
        reveal_strlit("rain_showers");
        reveal_strlit("snow");
        assert("rain_showers"@.len() != "snow"@.len());
    }
    assert("rain_showers"@ != "heavy_snow"@) by {
        reveal_strlit("rain_showers");
        reveal_strlit("heavy_snow");
        assert("rain_showers"@.len() != "heavy_snow"@.len());
    }
    assert("rain_showers"@ != "snow_grains"@) by {
        reveal_strlit("rain_showers");
        reveal_strlit("snow_grains");
        assert("rain_showers"@.len() != "snow_grains"@.len());
    }
    assert("rain_showers"@ != "snow_showers"@) by {
        reveal_strlit("rain_showers");
        reveal_strlit("snow_showers");
        assert("rain_showers"@[0] != "snow_showers"@[0]);
    }
    assert("heavy_rain_showers"@ != "snow"@) by {
        reveal_strlit("heavy_rain_showers");
        reveal_strlit("snow");
        assert("heavy_rain_showers"@.len() != "snow"@.len());
    }
    assert("heavy_rain_showers"@ != "heavy_snow"@) by {
        reveal_strlit("heavy_rain_showers");
        reveal_strlit("heavy_snow");
        assert("heavy_rain_showers"@.len() != "heavy_snow"@.len());
    }
    assert("heavy_rain_showers"@ != "snow_grains"@) by {
        reveal_strlit("heavy_rain_showers");
        reveal_strlit("snow_grains");
        assert("heavy_rain_showers"@.len() != "snow_grains"@.len());
    }
    assert("heavy_rain_showers"@ != "snow_showers"@) by {
        reveal_strlit("heavy_rain_showers");
        reveal_strlit("snow_showers");
        assert("heavy_rain_showers"@.len() != "snow_showers"@.len());
    }
    assert("thunderstorm"@ != "snow"@) by {
        reveal_strlit("thunderstorm");
        reveal_strlit("snow");
        assert("thunderstorm"@.len() != "snow"@.len());
    }
    assert("thunderstorm"@ != "heavy_snow"@) by {
        reveal_strlit("thunderstorm");
        reveal_strlit("heavy_snow");
        assert("thunderstorm"@.len() != "heavy_snow"@.len());
    }
    assert("thunderstorm"@ != "snow_grains"@) by {
        reveal_strlit("thunderstorm");
        reveal_strlit("snow_grains");
        assert("thunderstorm"@.len() != "snow_grains"@.len());
    }
    assert("thunderstorm"@ != "snow_showers"@) by {
        reveal_strlit("thunderstorm");
        reveal_strlit("snow_showers");
        assert("thunderstorm"@[0] != "snow_showers"@[0]);
    }
    assert("thunderstorm_hail"@ != "snow"@) by {
        reveal_strlit("thunderstorm_hail");
        reveal_strlit("snow");
        assert("thunderstorm_hail"@.len() != "snow"@.len());
    }
    assert("thunderstorm_hail"@ != "heavy_snow"@) by {
        reveal_strlit("thunderstorm_hail");
        reveal_strlit("heavy_snow");
        assert("thunderstorm_hail"@.len() != "heavy_snow"@.len());
    }
    assert("thunderstorm_hail"@ != "snow_grains"@) by {
        reveal_strlit("thunderstorm_hail");
        reveal_strlit("snow_grains");
        assert("thunderstorm_hail"@.len() != "snow_grains"@.len());
    }
    assert("thunderstorm_hail"@ != "snow_showers"@) by {
        reveal_strlit("thunderstorm_hail");
        reveal_strlit("snow_showers");
        assert("thunderstorm_hail"@.len() != "snow_showers"@.len());
    }
    assert("unknown"@ != "snow"@) by {
        reveal_strlit("unknown");
        reveal_strlit("snow");
        assert("unknown"@.len() != "snow"@.len());
    }
    assert("unknown"@ != "heavy_snow"@) by {
        reveal_strlit("unknown");
        reveal_strlit("heavy_snow");
        assert("unknown"@.len() != "heavy_snow"@.len());
    }
    assert("unknown"@ != "snow_grains"@) by {
        reveal_strlit("unknown");
        reveal_strlit("snow_grains");
        assert("unknown"@.len() != "snow_grains"@.len());
    }
    assert("unknown"@ != "snow_showers"@) by {
        reveal_strlit("unknown");
        reveal_strlit("snow_showers");
        assert("unknown"@.len() != "snow_showers"@.len());
    }
}

} // verus!
