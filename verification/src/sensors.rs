//! Temperature sensors: guessing which hwmon reading is "the CPU", and the
//! names and captions the temperature widgets show for a sensor.
use vstd::prelude::*;

use crate::text::{chars_of, push_str, string_of, text_equals};

verus! {

/// One hwmon reading: `(chip name, label, temperature in millidegrees
/// Celsius)`; the label is empty when the entry has none.
pub type SensorReading = (String, String, i64);

pub open spec fn reading_view(r: SensorReading) -> (Seq<char>, Seq<char>) {
    (r.0@, r.1@)
}

pub open spec fn readings_view(v: Seq<SensorReading>) -> Seq<(Seq<char>, Seq<char>)> {
    v.map_values(|r: SensorReading| reading_view(r))
}

/// What `str::to_lowercase` returns for `s`.
pub uninterp spec fn lowercase_of(s: Seq<char>) -> Seq<char>;

/// `str::to_lowercase`: claims only that the result is `lowercase_of` of
/// the argument.
#[verifier::external_body]
pub(crate) fn to_lowercase(s: &str) -> (r: String)
    ensures
        r@ == lowercase_of(s@),
{
    s.to_lowercase()
}

/// Chips tried in this order when guessing the CPU sensor.
pub open spec fn chip_priority() -> Seq<Seq<char>> {
    seq!["k10temp"@, "zenpower"@, "coretemp"@, "cpu_thermal"@, "acpitz"@]
}

/// A label that tracks the CPU as a whole (compared lowercased).
pub open spec fn preferred_label(label: Seq<char>) -> bool {
    let l = lowercase_of(label);
    l == "tctl"@ || l == "tdie"@ || l == "package id 0"@
}

/// The readings of `chip`, in order.
pub open spec fn chip_entries(s: Seq<(Seq<char>, Seq<char>)>, chip: Seq<char>) -> Seq<(Seq<char>, Seq<char>)>
    decreases s.len(),
{
    if s.len() == 0 {
        s
    } else if s.last().0 == chip {
        chip_entries(s.drop_last(), chip).push(s.last())
    } else {
        chip_entries(s.drop_last(), chip)
    }
}

/// The first entry with a preferred label, else the first entry.
pub open spec fn pick_in_chip(c: Seq<(Seq<char>, Seq<char>)>) -> (Seq<char>, Seq<char>) {
    match first_preferred(c) {
        Some(e) => e,
        None => c[0],
    }
}

pub open spec fn first_preferred(c: Seq<(Seq<char>, Seq<char>)>) -> Option<(Seq<char>, Seq<char>)>
    decreases c.len(),
{
    if c.len() == 0 {
        None
    } else if preferred_label(c[0].1) {
        Some(c[0])
    } else {
        first_preferred(c.skip(1))
    }
}

/// The pick among the chips of `chips`, in order: the first chip with any
/// reading decides.
pub open spec fn pick_by_chips(chips: Seq<Seq<char>>, s: Seq<(Seq<char>, Seq<char>)>) -> Option<(Seq<char>, Seq<char>)>
    decreases chips.len(),
{
    if chips.len() == 0 {
        None
    } else if chip_entries(s, chips[0]).len() > 0 {
        Some(pick_in_chip(chip_entries(s, chips[0])))
    } else {
        pick_by_chips(chips.skip(1), s)
    }
}

/// The most CPU-like sensor: by chip priority, preferring a whole-CPU label
/// within a chip; else the first reading at all.
pub open spec fn auto_pick(s: Seq<(Seq<char>, Seq<char>)>) -> Option<(Seq<char>, Seq<char>)> {
    match pick_by_chips(chip_priority(), s) {
        Some(e) => Some(e),
        None => if s.len() > 0 {
            Some(s[0])
        } else {
            None
        },
    }
}

/// The readings of `chip`.
fn chip_candidates(sensors: &[SensorReading], chip: &str) -> (r: Vec<(String, String)>)
    ensures
        r@.map_values(|p: (String, String)| (p.0@, p.1@)) == chip_entries(readings_view(sensors@), chip@),
{
    let cc = chars_of(chip);
    let ghost s = readings_view(sensors@);
    let mut out: Vec<(String, String)> = Vec::new();
    let mut i: usize = 0;
    assert(s.take(0) =~= Seq::<(Seq<char>, Seq<char>)>::empty());
    while i < sensors.len()
        invariant
            i <= sensors@.len(),
            cc@ == chip@,
            s == readings_view(sensors@),
            out@.map_values(|p: (String, String)| (p.0@, p.1@)) == chip_entries(s.take(i as int), chip@),
        decreases sensors@.len() - i,
    {
        let ghost t = s.take(i as int + 1);
        assert(t.drop_last() =~= s.take(i as int));
        assert(t.last() == reading_view(sensors@[i as int]));
        if text_equals(sensors[i].0.as_str(), &cc) {
            let ghost before = out@.map_values(|p: (String, String)| (p.0@, p.1@));
            out.push((sensors[i].0.clone(), sensors[i].1.clone()));
            assert(out@.map_values(|p: (String, String)| (p.0@, p.1@)) =~= before.push(t.last()));
        }
        i += 1;
    }
    assert(s.take(sensors@.len() as int) =~= s);
    out
}

fn is_preferred(label: &str) -> (b: bool)
    ensures
        b == preferred_label(label@),
{
    let lower = to_lowercase(label);
    let lc = chars_of(lower.as_str());
    text_equals("tctl", &lc) || text_equals("tdie", &lc) || text_equals("package id 0", &lc)
}

fn pick_candidate(c: &Vec<(String, String)>) -> (r: (String, String))
    requires
        c@.len() > 0,
    ensures
        (r.0@, r.1@) == pick_in_chip(c@.map_values(|p: (String, String)| (p.0@, p.1@))),
{
    let ghost cv = c@.map_values(|p: (String, String)| (p.0@, p.1@));
    let mut i: usize = 0;
    assert(cv.skip(0) =~= cv);
    while i < c.len()
        invariant
            i <= c@.len(),
            cv == c@.map_values(|p: (String, String)| (p.0@, p.1@)),
            first_preferred(cv) == first_preferred(cv.skip(i as int)),
        decreases c@.len() - i,
    {
        let ghost t = cv.skip(i as int);
        assert(t[0] == (c@[i as int].0@, c@[i as int].1@));
        assert(t.skip(1) =~= cv.skip(i + 1));
        if is_preferred(c[i].1.as_str()) {
            return (c[i].0.clone(), c[i].1.clone());
        }
        i += 1;
    }
    assert(cv[0] == (c@[0].0@, c@[0].1@));
    (c[0].0.clone(), c[0].1.clone())
}

/// Guesses the most CPU-like sensor: each chip of the priority list
/// `k10temp`, `zenpower`, `coretemp`, `cpu_thermal`, `acpitz` in turn, and
/// within the first one present a `Tctl` / `Tdie` / `Package id 0` label
/// (compared lowercased) over the chip's first reading; the very first
/// reading when no listed chip is present.
pub fn auto_pick_sensor(sensors: &[SensorReading]) -> (r: Option<(String, String)>)
    ensures
        match r {
            Some(p) => auto_pick(readings_view(sensors@)) == Some((p.0@, p.1@)),
            None => auto_pick(readings_view(sensors@)) is None,
        },
{
    let ghost s = readings_view(sensors@);
    let chips: [&str; 5] = ["k10temp", "zenpower", "coretemp", "cpu_thermal", "acpitz"];
    let ghost prio = chip_priority();
    assert(chips@.map_values(|c: &str| c@) =~= prio);
    let mut k: usize = 0;
    assert(prio.skip(0) =~= prio);
    while k < 5
        invariant
            k <= 5,
            s == readings_view(sensors@),
            prio == chip_priority(),
            chips@.map_values(|c: &str| c@) == prio,
            pick_by_chips(prio, s) == pick_by_chips(prio.skip(k as int), s),
        decreases 5 - k,
    {
        let ghost t = prio.skip(k as int);
        assert(t[0] == chips@[k as int]@);
        assert(t.skip(1) =~= prio.skip(k + 1));
        let candidates = chip_candidates(sensors, chips[k]);
        if candidates.len() > 0 {
            let p = pick_candidate(&candidates);
            return Some(p);
        }
        k += 1;
    }
    assert(prio.skip(5) =~= Seq::<Seq<char>>::empty());
    if sensors.len() > 0 {
        Some((sensors[0].0.clone(), sensors[0].1.clone()))
    } else {
        None
    }
}

pub open spec fn display_name(chip: Seq<char>, label: Seq<char>) -> Seq<char> {
    if label.len() == 0 {
        chip
    } else {
        chip + " ("@ + label + ")"@
    }
}

/// The name of one sensor in the settings list: `chip (label)`, or just
/// `chip` without a label.
pub fn sensor_display_name(chip: &str, label: &str) -> (r: String)
    ensures
        r@ == display_name(chip@, label@),
{
    let lc = chars_of(label);
    if lc.len() == 0 {
        return chip.to_string();
    }
    let mut v: Vec<char> = Vec::new();
    push_str(&mut v, chip);
    push_str(&mut v, " (");
    push_str(&mut v, label);
    push_str(&mut v, ")");
    assert(v@ =~= display_name(chip@, label@));
    string_of(&v)
}

pub open spec fn opt_view(s: Option<String>) -> Option<Seq<char>> {
    match s {
        Some(t) => Some(t@),
        None => None,
    }
}

/// The `(chip, label)` driving a temperature widget: the pinned sensor, or
/// the auto-picked one.
pub fn effective_sensor(
    pinned_chip: Option<&str>,
    pinned_label: Option<&str>,
    sensors: &[SensorReading],
) -> (r: (Option<String>, Option<String>))
    ensures
        match pinned_chip {
            Some(c) => opt_view(r.0) == Some(c@) && opt_view(r.1) == (match pinned_label {
                Some(l) => Some(l@),
                None => None,
            }),
            None => match auto_pick(readings_view(sensors@)) {
                Some(p) => opt_view(r.0) == Some(p.0) && opt_view(r.1) == Some(p.1),
                None => r.0 is None && r.1 is None,
            },
        },
{
    match pinned_chip {
        Some(c) => (Some(c.to_string()), match pinned_label {
            Some(l) => Some(l.to_string()),
            None => None,
        }),
        None => match auto_pick_sensor(sensors) {
            Some((chip, label)) => (Some(chip), Some(label)),
            None => (None, None),
        },
    }
}

/// The reading of the sensor `(chip, label)`: the first one listed.
pub fn current_value(chip: &str, label: &str, sensors: &[SensorReading]) -> (r: Option<i64>)
    ensures
        match r {
            Some(v) => exists|i: int|
                0 <= i < sensors@.len() && #[trigger] sensors@[i].0@ == chip@ && sensors@[i].1@ == label@
                    && sensors@[i].2 == v && forall|j: int|
                    0 <= j < i ==> !(#[trigger] sensors@[j].0@ == chip@ && sensors@[j].1@ == label@),
            None => forall|i: int|
                0 <= i < sensors@.len() ==> !(#[trigger] sensors@[i].0@ == chip@ && sensors@[i].1@ == label@),
        },
{
    let cc = chars_of(chip);
    let lc = chars_of(label);
    let mut i: usize = 0;
    while i < sensors.len()
        invariant
            i <= sensors@.len(),
            cc@ == chip@,
            lc@ == label@,
            forall|j: int| 0 <= j < i ==> !(#[trigger] sensors@[j].0@ == chip@ && sensors@[j].1@ == label@),
        decreases sensors@.len() - i,
    {
        if text_equals(sensors[i].0.as_str(), &cc) && text_equals(sensors[i].1.as_str(), &lc) {
            assert(sensors@[i as int].0@ == chip@ && sensors@[i as int].1@ == label@);
            return Some(sensors[i].2);
        }
        i += 1;
    }
    None
}

/// The caption of a temperature widget: while a sensor is pinned, the
/// user's non-empty custom label; otherwise the default caption.
pub fn display_label(pinned: bool, custom_label: Option<&str>, default_caption: &str) -> (r: String)
    ensures
        r@ == (match custom_label {
            Some(c) if pinned && c@.len() > 0 => c@,
            _ => default_caption@,
        }),
{
    if pinned {
        if let Some(c) = custom_label {
            if chars_of(c).len() > 0 {
                return c.to_string();
            }
        }
    }
    default_caption.to_string()
}


/// A sensor is picked automatically exactly when there is any reading, and
/// the pick is one of the readings.
pub proof fn lemma_auto_pick_some_iff_readings(s: Seq<(Seq<char>, Seq<char>)>)
    ensures
        auto_pick(s) is Some <==> s.len() > 0,
        auto_pick(s) is Some ==> s.contains(auto_pick(s)->0),
{
    lemma_pick_by_chips_member(chip_priority(), s);
    if s.len() > 0 && pick_by_chips(chip_priority(), s) is None {
        assert(s[0] == s[0]);
    }
}

proof fn lemma_chip_entries_members(s: Seq<(Seq<char>, Seq<char>)>, chip: Seq<char>)
    ensures
        forall|i: int| 0 <= i < chip_entries(s, chip).len() ==> s.contains(#[trigger] chip_entries(s, chip)[i]),
    decreases s.len(),
{
    if s.len() > 0 {
        lemma_chip_entries_members(s.drop_last(), chip);
        assert forall|i: int| 0 <= i < chip_entries(s, chip).len() implies s.contains(
            #[trigger] chip_entries(s, chip)[i],
        ) by {
            let prev = chip_entries(s.drop_last(), chip);
            if i < prev.len() {
                let k = choose|k: int| 0 <= k < s.drop_last().len() && s.drop_last()[k] == prev[i];
                assert(s[k] == prev[i]);
            } else {
                assert(s[s.len() - 1] == s.last());
            }
        }
    }
}

proof fn lemma_first_preferred_member(c: Seq<(Seq<char>, Seq<char>)>)
    ensures
        first_preferred(c) is Some ==> c.contains(first_preferred(c)->0),
    decreases c.len(),
{
    if c.len() > 0 && !preferred_label(c[0].1) {
        lemma_first_preferred_member(c.skip(1));
        if first_preferred(c) is Some {
            let k = choose|k: int| 0 <= k < c.skip(1).len() && c.skip(1)[k] == first_preferred(c)->0;
            assert(c[k + 1] == first_preferred(c)->0);
        }
    } else if c.len() > 0 {
        assert(c[0] == c[0]);
    }
}

proof fn lemma_pick_by_chips_member(chips: Seq<Seq<char>>, s: Seq<(Seq<char>, Seq<char>)>)
    ensures
        pick_by_chips(chips, s) is Some ==> s.contains(pick_by_chips(chips, s)->0),
    decreases chips.len(),
{
    if chips.len() > 0 {
        let c = chip_entries(s, chips[0]);
        if c.len() > 0 {
            lemma_chip_entries_members(s, chips[0]);
            lemma_first_preferred_member(c);
            let p = pick_in_chip(c);
            if first_preferred(c) is Some {
                let k = choose|k: int| 0 <= k < c.len() && c[k] == p;
                assert(s.contains(c[k]));
            } else {
                assert(s.contains(c[0]));
            }
        } else {
            lemma_pick_by_chips_member(chips.skip(1), s);
        }
    }
}

/// Whether `s` holds a reading of the chip `chip`.
pub open spec fn has_reading_of(s: Seq<(Seq<char>, Seq<char>)>, chip: Seq<char>) -> bool {
    exists|i: int| 0 <= i < s.len() && (#[trigger] s[i]).0 == chip
}

/// The readings of a chip are all of it, and there is one exactly when
/// the chip has a reading.
proof fn lemma_chip_entries_of_chip(s: Seq<(Seq<char>, Seq<char>)>, chip: Seq<char>)
    ensures
        forall|i: int| 0 <= i < chip_entries(s, chip).len() ==> (#[trigger] chip_entries(s, chip)[i]).0 == chip,
        chip_entries(s, chip).len() > 0 <==> has_reading_of(s, chip),
    decreases s.len(),
{
    if s.len() > 0 {
        let t = s.drop_last();
        lemma_chip_entries_of_chip(t, chip);
        if has_reading_of(s, chip) {
            let i = choose|i: int| 0 <= i < s.len() && (#[trigger] s[i]).0 == chip;
            if i < s.len() - 1 {
                assert(t[i] == s[i]);
            }
        }
        if has_reading_of(t, chip) {
            let i = choose|i: int| 0 <= i < t.len() && (#[trigger] t[i]).0 == chip;
            assert(s[i] == t[i]);
        }
    }
}

/// The pick within a chip's readings is one of them.
proof fn lemma_pick_in_chip_of_chip(s: Seq<(Seq<char>, Seq<char>)>, chip: Seq<char>)
    requires
        has_reading_of(s, chip),
    ensures
        pick_in_chip(chip_entries(s, chip)).0 == chip,
{
    lemma_chip_entries_of_chip(s, chip);
    let c = chip_entries(s, chip);
    lemma_first_preferred_member(c);
    if first_preferred(c) is Some {
        let k = choose|k: int| 0 <= k < c.len() && c[k] == first_preferred(c)->0;
        assert(c[k].0 == chip);
    } else {
        assert(c[0].0 == chip);
    }
}

/// The automatic pick is a reading of the first chip of `k10temp`,
/// `zenpower`, `coretemp`, `cpu_thermal`, `acpitz` that has any reading;
/// when none of them has one, it is the very first reading.
pub proof fn lemma_auto_pick_follows_chip_priority(s: Seq<(Seq<char>, Seq<char>)>)
    ensures
        has_reading_of(s, "k10temp"@) ==> auto_pick(s) is Some && auto_pick(s).unwrap().0 == "k10temp"@,
        !has_reading_of(s, "k10temp"@) && has_reading_of(s, "zenpower"@) ==> auto_pick(s) is Some && auto_pick(
            s,
        ).unwrap().0 == "zenpower"@,
        !has_reading_of(s, "k10temp"@) && !has_reading_of(s, "zenpower"@) && has_reading_of(s, "coretemp"@)
            ==> auto_pick(s) is Some && auto_pick(s).unwrap().0 == "coretemp"@,
        !has_reading_of(s, "k10temp"@) && !has_reading_of(s, "zenpower"@) && !has_reading_of(s, "coretemp"@)
            && has_reading_of(s, "cpu_thermal"@) ==> auto_pick(s) is Some && auto_pick(s).unwrap().0
            == "cpu_thermal"@,
        !has_reading_of(s, "k10temp"@) && !has_reading_of(s, "zenpower"@) && !has_reading_of(s, "coretemp"@)
            && !has_reading_of(s, "cpu_thermal"@) && has_reading_of(s, "acpitz"@) ==> auto_pick(s) is Some
            && auto_pick(s).unwrap().0 == "acpitz"@,
        !has_reading_of(s, "k10temp"@) && !has_reading_of(s, "zenpower"@) && !has_reading_of(s, "coretemp"@)
            && !has_reading_of(s, "cpu_thermal"@) && !has_reading_of(s, "acpitz"@) && s.len() > 0 ==> auto_pick(s)
            == Some(s[0]),
{
    reveal_with_fuel(pick_by_chips, 6);
    let p = chip_priority();
    let names = seq!["k10temp"@, "zenpower"@, "coretemp"@, "cpu_thermal"@, "acpitz"@];
    let p1 = p.skip(1);
    let p2 = p1.skip(1);
    let p3 = p2.skip(1);
    let p4 = p3.skip(1);
    let p5 = p4.skip(1);
    assert(p5.len() == 0);
    let names_here = seq![p[0], p1[0], p2[0], p3[0], p4[0]];
    assert(names_here =~= names);
    lemma_chip_entries_of_chip(s, "k10temp"@);
    lemma_chip_entries_of_chip(s, "zenpower"@);
    lemma_chip_entries_of_chip(s, "coretemp"@);
    lemma_chip_entries_of_chip(s, "cpu_thermal"@);
    lemma_chip_entries_of_chip(s, "acpitz"@);
    if has_reading_of(s, "k10temp"@) {
        lemma_pick_in_chip_of_chip(s, "k10temp"@);
    } else if has_reading_of(s, "zenpower"@) {
        lemma_pick_in_chip_of_chip(s, "zenpower"@);
    } else if has_reading_of(s, "coretemp"@) {
        lemma_pick_in_chip_of_chip(s, "coretemp"@);
    } else if has_reading_of(s, "cpu_thermal"@) {
        lemma_pick_in_chip_of_chip(s, "cpu_thermal"@);
    } else if has_reading_of(s, "acpitz"@) {
        lemma_pick_in_chip_of_chip(s, "acpitz"@);
    }
}

} // verus!
