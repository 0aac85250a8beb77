//! The agenda's calendar data: unfolding and reading the `VEVENT` text a
//! calendar service hands out, the key-file blobs that describe its
//! calendars, and the grouping of event occurrences by day.
use chrono::{Datelike, TimeZone, Timelike};
use vstd::prelude::*;

use crate::text::{
    chars_of, lines, lines_of, split_by, split_chars, split_once, split_once_chars, string_of, strip_cr, strip_cr_vec,
    text_equals, trim_by, views, Sep,
};

verus! {

/// The pieces of `s` at each line break, as splitting at `"\r\n"` and then
/// at `'\n'` gives them: a `\r` right before a `\n` is dropped.
pub open spec fn crlf_pieces(s: Seq<char>) -> Seq<Seq<char>> {
    let ps = split_by(s, Sep::Char('\n'));
    ps.drop_last().map_values(|p: Seq<char>| strip_cr(p)).push(ps.last())
}

/// The text of the pieces `ps` with folding undone: a piece that starts
/// with a space continues the previous line (the space dropped); any other
/// piece starts a new line.
pub open spec fn unfold_pieces(ps: Seq<Seq<char>>) -> Seq<char>
    decreases ps.len(),
{
    if ps.len() == 0 {
        Seq::empty()
    } else {
        let out = unfold_pieces(ps.drop_last());
        let l = ps.last();
        if l.len() > 0 && l[0] == ' ' {
            out + l.skip(1)
        } else if out.len() > 0 {
            out.push('\n') + l
        } else {
            out + l
        }
    }
}

/// Calendar text with its folded lines joined back.
pub open spec fn unfolded(ics: Seq<char>) -> Seq<char> {
    unfold_pieces(crlf_pieces(ics))
}

/// Appends the characters of `src` from index `from` on to `out`.
fn append_from(out: &mut Vec<char>, src: &Vec<char>, from: usize)
    requires
        from <= src@.len(),
    ensures
        final(out)@ == old(out)@ + src@.skip(from as int),
{
    let mut k = from;
    let ghost start = out@;
    while k < src.len()
        invariant
            from <= k <= src@.len(),
            out@ == start + src@.subrange(from as int, k as int),
        decreases src@.len() - k,
    {
        out.push(src[k]);
        assert(src@.subrange(from as int, k + 1) =~= src@.subrange(from as int, k as int).push(src@[k as int]));
        k += 1;
    }
    assert(src@.subrange(from as int, k as int) =~= src@.skip(from as int));
}

/// Undoes RFC 5545 line folding: a line that starts with a single space
/// continues the one before it.
pub fn unfold_ical_lines(ics: &str) -> (out: String)
    ensures
        out@ == unfolded(ics@),
{
    let cs = chars_of(ics);
    let pieces = split_chars(&cs, Sep::Char('\n'));
    let ghost raw = views(pieces@);
    proof {
        crate::text::lemma_split_nonempty(cs@, Sep::Char('\n'));
    }
    let n = pieces.len();
    let ghost ps = crlf_pieces(cs@);
    assert(ps.len() == n);
    let mut out: Vec<char> = Vec::new();
    let mut rest = pieces;
    let mut i: usize = 0;
    assert(ps.take(0) =~= Seq::<Seq<char>>::empty());
    while i < n
        invariant
            n == raw.len(),
            n >= 1,
            ps == crlf_pieces(cs@),
            raw == split_by(cs@, Sep::Char('\n')),
            i <= n,
            views(rest@) == raw.skip(i as int),
            out@ == unfold_pieces(ps.take(i as int)),
        decreases n - i,
    {
        let ghost old_rest = rest@;
        assert(views(old_rest).len() == old_rest.len());
        assert(views(old_rest)[0] == raw[i as int]);
        let piece0 = rest.remove(0);
        assert(views(rest@) =~= views(old_rest).skip(1));
        assert(raw.skip(i as int).skip(1) =~= raw.skip(i + 1));
        let piece = if i + 1 < n {
            strip_cr_vec(piece0)
        } else {
            piece0
        };
        assert(piece@ == ps[i as int]);
        assert(ps.take(i + 1).drop_last() =~= ps.take(i as int));
        assert(ps.take(i + 1).last() == ps[i as int]);
        let ghost before = out@;
        if piece.len() > 0 && piece[0] == ' ' {
            append_from(&mut out, &piece, 1);
        } else {
            if out.len() > 0 {
                out.push('\n');
            }
            append_from(&mut out, &piece, 0);
            assert(piece@.skip(0) =~= piece@);
        }
        i += 1;
    }
    assert(ps.take(n as int) =~= ps);
    string_of(&out)
}

/// The name of the property on the content line `line`: what comes before
/// the first `:`, up to the first `;` (where its parameters start).
pub open spec fn property_name(line: Seq<char>) -> Option<Seq<char>> {
    match split_once(line, ':') {
        Some((prefix, _)) => Some(split_by(prefix, Sep::Char(';'))[0]),
        None => None,
    }
}

/// The first `;`-separated piece of `v`.
fn first_piece(v: &Vec<char>) -> (r: Vec<char>)
    ensures
        r@ == split_by(v@, Sep::Char(';'))[0],
{
    let mut ps = split_chars(v, Sep::Char(';'));
    proof {
        crate::text::lemma_split_nonempty(v@, Sep::Char(';'));
        assert(views(ps@)[0] == ps@[0]@);
    }
    ps.swap_remove(0)
}

/// The property name of the content line `line`.
fn property_name_of(line: &Vec<char>) -> (r: Option<Vec<char>>)
    ensures
        match r {
            Some(n) => property_name(line@) == Some(n@),
            None => property_name(line@) is None,
        },
{
    match split_once_chars(line, ':') {
        Some((prefix, _)) => Some(first_piece(&prefix)),
        None => None,
    }
}

/// Whether the unfolded event text `u` has an `RRULE` property: the only
/// sign used that an event repeats.
pub open spec fn has_rrule_spec(u: Seq<char>) -> bool {
    exists|i: int| 0 <= i < lines(u).len() && property_name(#[trigger] lines(u)[i]) == Some("RRULE"@)
}

/// Whether the unfolded event text `unfolded` has an `RRULE` property.
pub fn has_rrule(unfolded: &str) -> (b: bool)
    ensures
        b == has_rrule_spec(unfolded@),
{
    let cs = chars_of(unfolded);
    let ls = lines_of(&cs);
    let ghost lv = views(ls@);
    let mut i: usize = 0;
    while i < ls.len()
        invariant
            lv == views(ls@),
            lv == lines(unfolded@),
            cs@ == unfolded@,
            i <= ls@.len(),
            forall|j: int| 0 <= j < i ==> property_name(#[trigger] lv[j]) != Some("RRULE"@),
        decreases ls@.len() - i,
    {
        assert(lv[i as int] == ls@[i as int]@);
        match property_name_of(&ls[i]) {
            Some(n) => {
                if text_equals("RRULE", &n) {
                    return true;
                }
            },
            None => {},
        }
        i += 1;
    }
    false
}


/// The last `SUMMARY` value (empty when there is none) and the parameters
/// and value of the last `DTSTART` line among the content lines `ls`.
pub open spec fn event_fields(ls: Seq<Seq<char>>) -> (Seq<char>, Option<(Seq<char>, Seq<char>)>)
    decreases ls.len(),
{
    if ls.len() == 0 {
        (Seq::empty(), None)
    } else {
        let before = event_fields(ls.drop_last());
        match split_once(ls.last(), ':') {
            Some((prefix, value)) => {
                let name = split_by(prefix, Sep::Char(';'))[0];
                if name == "SUMMARY"@ {
                    (value, before.1)
                } else if name == "DTSTART"@ {
                    (before.0, Some((prefix, value)))
                } else {
                    before
                }
            },
            None => before,
        }
    }
}

/// A calendar date and time of day as written in calendar text, with no
/// time zone attached.
#[derive(Clone, Copy, PartialEq, Eq, Debug, Structural)]
pub struct CivilDateTime {
    pub year: i32,
    pub month: u32,
    pub day: u32,
    pub hour: u32,
    pub minute: u32,
    pub second: u32,
}

/// When an event starts, as its `DTSTART` line states it.
#[derive(PartialEq, Eq, Debug, Clone)]
pub enum DtStart {
    /// An all-day event on this year, month and day.
    Date(i32, u32, u32),
    /// A time in UTC (the value ended in `Z`).
    Utc(CivilDateTime),
    /// A time in the named IANA time zone (a `TZID` parameter).
    Zoned(String, CivilDateTime),
    /// A floating time, read in the viewer's own time zone.
    Floating(CivilDateTime),
}

/// The mathematical value of a `DtStart`.
pub ghost enum StartSpec {
    Date(i32, u32, u32),
    Utc(CivilDateTime),
    Zoned(Seq<char>, CivilDateTime),
    Floating(CivilDateTime),
}

impl View for DtStart {
    type V = StartSpec;

    open spec fn view(&self) -> StartSpec {
        match self {
            DtStart::Date(y, m, d) => StartSpec::Date(*y, *m, *d),
            DtStart::Utc(t) => StartSpec::Utc(*t),
            DtStart::Zoned(z, t) => StartSpec::Zoned(z@, *t),
            DtStart::Floating(t) => StartSpec::Floating(*t),
        }
    }
}

/// What `NaiveDate::parse_from_str(s, "%Y%m%d")` gives, as year, month
/// and day.
pub uninterp spec fn compact_date_parse(s: Seq<char>) -> Option<(i32, u32, u32)>;

/// What `NaiveDateTime::parse_from_str(s, "%Y%m%dT%H%M%S")` gives.
pub uninterp spec fn compact_date_time_parse(s: Seq<char>) -> Option<CivilDateTime>;

/// Calls `chrono::NaiveDate::parse_from_str` with the basic date format of
/// calendar text; trusted to return the parsed year, month and day as a
/// function of `s` alone.
#[verifier::external_body]
fn parse_compact_date(s: &str) -> (r: Option<(i32, u32, u32)>)
    ensures
        r == compact_date_parse(s@),
{
    chrono::NaiveDate::parse_from_str(s, "%Y%m%d").ok().map(|d| (d.year(), d.month(), d.day()))
}

/// Calls `chrono::NaiveDateTime::parse_from_str` with the basic date-time
/// format of calendar text; trusted to return the parsed fields as a
/// function of `s` alone.
#[verifier::external_body]
fn parse_compact_date_time(s: &str) -> (r: Option<CivilDateTime>)
    ensures
        r == compact_date_time_parse(s@),
{
    chrono::NaiveDateTime::parse_from_str(s, "%Y%m%dT%H%M%S").ok().map(
        |d| CivilDateTime {
            year: d.year(),
            month: d.month(),
            day: d.day(),
            hour: d.hour(),
            minute: d.minute(),
            second: d.second(),
        },
    )
}

/// The value of the first `TZID=` piece among `parts`.
pub open spec fn first_tzid(parts: Seq<Seq<char>>) -> Option<Seq<char>>
    decreases parts.len(),
{
    if parts.len() == 0 {
        None
    } else {
        match crate::text::strip_prefix(parts[0], "TZID="@) {
            Some(t) => Some(t),
            None => first_tzid(parts.skip(1)),
        }
    }
}

/// What the `DTSTART` line with parameters `prefix` and value `value`
/// states: a date when a parameter says `VALUE=DATE`, else a date-time in
/// UTC (value ending in `Z`), in a named zone (`TZID=`) or floating;
/// `None` when the value does not parse.
pub open spec fn dtstart_of(prefix: Seq<char>, value: Seq<char>) -> Option<StartSpec> {
    if crate::text::contains_seq(prefix, "VALUE=DATE"@) {
        match compact_date_parse(value) {
            Some((y, m, d)) => Some(StartSpec::Date(y, m, d)),
            None => None,
        }
    } else {
        let is_utc = value.len() > 0 && value.last() == 'Z';
        let naive = if is_utc {
            value.drop_last()
        } else {
            value
        };
        match compact_date_time_parse(naive) {
            None => None,
            Some(t) => if is_utc {
                Some(StartSpec::Utc(t))
            } else {
                match first_tzid(split_by(prefix, Sep::Char(';'))) {
                    Some(z) => Some(StartSpec::Zoned(z, t)),
                    None => Some(StartSpec::Floating(t)),
                }
            },
        }
    }
}

/// The zone named by the first `TZID=` piece among the `;`-pieces of `prefix`.
fn tzid_of(prefix: &Vec<char>) -> (r: Option<Vec<char>>)
    ensures
        match r {
            Some(z) => first_tzid(split_by(prefix@, Sep::Char(';'))) == Some(z@),
            None => first_tzid(split_by(prefix@, Sep::Char(';'))) is None,
        },
{
    let parts = split_chars(prefix, Sep::Char(';'));
    let ghost ps = views(parts@);
    let mut i: usize = 0;
    assert(ps.skip(0) =~= ps);
    while i < parts.len()
        invariant
            ps == views(parts@),
            ps == split_by(prefix@, Sep::Char(';')),
            i <= parts@.len(),
            first_tzid(ps) == first_tzid(ps.skip(i as int)),
        decreases parts@.len() - i,
    {
        assert(ps[i as int] == parts@[i as int]@);
        assert(ps.skip(i as int)[0] == ps[i as int]);
        assert(ps.skip(i as int).skip(1) =~= ps.skip(i + 1));
        match crate::text::strip_prefix_chars(&parts[i], "TZID=") {
            Some(z) => {
                return Some(z);
            },
            None => {},
        }
        i += 1;
    }
    assert(ps.skip(i as int).len() == 0);
    None
}

/// When the event starts, from the parameters `prefix` and value `value`
/// of its `DTSTART` line; `None` when the value does not parse.
pub fn parse_dtstart(prefix: &str, value: &str) -> (r: Option<DtStart>)
    ensures
        match r {
            Some(d) => dtstart_of(prefix@, value@) == Some(d@),
            None => dtstart_of(prefix@, value@) is None,
        },
{
    let pc = chars_of(prefix);
    if crate::text::find_seq_chars(&pc, "VALUE=DATE").is_some() {
        return match parse_compact_date(value) {
            Some((y, m, d)) => Some(DtStart::Date(y, m, d)),
            None => None,
        };
    }
    let vc = chars_of(value);
    let is_utc = vc.len() > 0 && vc[vc.len() - 1] == 'Z';
    let mut naive = vc;
    if is_utc {
        naive.pop();
    }
    assert(naive@ == (if is_utc { value@.drop_last() } else { value@ }));
    let naive_s = string_of(&naive);
    match parse_compact_date_time(naive_s.as_str()) {
        None => None,
        Some(t) => {
            if is_utc {
                Some(DtStart::Utc(t))
            } else {
                match tzid_of(&pc) {
                    Some(z) => Some(DtStart::Zoned(string_of(&z), t)),
                    None => Some(DtStart::Floating(t)),
                }
            }
        },
    }
}

/// The summary and start of the unfolded event text `u`: the last
/// `SUMMARY` value (empty if none) and what its last `DTSTART` line
/// states; `None` when it has no `DTSTART` line or that line does not
/// parse.
pub open spec fn summary_and_start(u: Seq<char>) -> Option<(Seq<char>, StartSpec)> {
    let (summary, dt) = event_fields(lines(u));
    match dt {
        Some((prefix, value)) => match dtstart_of(prefix, value) {
            Some(d) => Some((summary, d)),
            None => None,
        },
        None => None,
    }
}

/// Picks the summary and the start out of one unfolded `VEVENT` block;
/// not a full calendar parser, just these two properties. For a repeating
/// event the start is only that of its first occurrence.
pub fn parse_summary_and_dtstart(unfolded: &str) -> (r: Option<(String, DtStart)>)
    ensures
        match r {
            Some((s, d)) => summary_and_start(unfolded@) == Some((s@, d@)),
            None => summary_and_start(unfolded@) is None,
        },
{
    let cs = chars_of(unfolded);
    let ls = lines_of(&cs);
    let ghost lv = views(ls@);
    let mut summary: Vec<char> = Vec::new();
    let mut dt: Option<(Vec<char>, Vec<char>)> = None;
    let mut i: usize = 0;
    assert(lv.take(0) =~= Seq::<Seq<char>>::empty());
    while i < ls.len()
        invariant
            lv == views(ls@),
            lv == lines(unfolded@),
            i <= ls@.len(),
            event_fields(lv.take(i as int)).0 == summary@,
            event_fields(lv.take(i as int)).1 == (match dt {
                Some((p, v)) => Some((p@, v@)),
                None => None::<(Seq<char>, Seq<char>)>,
            }),
        decreases ls@.len() - i,
    {
        assert(lv[i as int] == ls@[i as int]@);
        assert(lv.take(i + 1).drop_last() =~= lv.take(i as int));
        assert(lv.take(i + 1).last() == lv[i as int]);
        match split_once_chars(&ls[i], ':') {
            Some((prefix, value)) => {
                let name = first_piece(&prefix);
                if text_equals("SUMMARY", &name) {
                    summary = value;
                } else if text_equals("DTSTART", &name) {
                    dt = Some((prefix, value));
                }
            },
            None => {},
        }
        i += 1;
    }
    assert(lv.take(i as int) =~= lv);
    match dt {
        Some((p, v)) => {
            let ps = string_of(&p);
            let vs = string_of(&v);
            match parse_dtstart(ps.as_str(), vs.as_str()) {
                Some(d) => Some((string_of(&summary), d)),
                None => None,
            }
        },
        None => None,
    }
}

/// Whether the content line `line` belongs to the repetition rules of an
/// event: a `DTSTART`, `RRULE`, `EXRULE`, `RDATE` or `EXDATE` property.
pub open spec fn is_recurrence_line(line: Seq<char>) -> bool {
    match property_name(line) {
        Some(n) => n == "DTSTART"@ || n == "RRULE"@ || n == "EXRULE"@ || n == "RDATE"@ || n == "EXDATE"@,
        None => false,
    }
}

/// The lines among `ls` that belong to the repetition rules, in order.
pub open spec fn recurrence_lines(ls: Seq<Seq<char>>) -> Seq<Seq<char>>
    decreases ls.len(),
{
    if ls.len() == 0 {
        ls
    } else if is_recurrence_line(ls.last()) {
        recurrence_lines(ls.drop_last()).push(ls.last())
    } else {
        recurrence_lines(ls.drop_last())
    }
}

/// The lines `ls` joined with `\n` between them.
pub open spec fn join_lines(ls: Seq<Seq<char>>) -> Seq<char>
    decreases ls.len(),
{
    if ls.len() == 0 {
        Seq::empty()
    } else if ls.len() == 1 {
        ls[0]
    } else {
        join_lines(ls.drop_last()).push('\n') + ls.last()
    }
}

fn is_recurrence_line_of(line: &Vec<char>) -> (b: bool)
    ensures
        b == is_recurrence_line(line@),
{
    match property_name_of(line) {
        Some(n) => text_equals("DTSTART", &n) || text_equals("RRULE", &n) || text_equals("EXRULE", &n) || text_equals(
            "RDATE",
            &n,
        ) || text_equals("EXDATE", &n),
        None => false,
    }
}

/// The block of an event's repetition lines (`DTSTART`, `RRULE`, `EXRULE`,
/// `RDATE`, `EXDATE`), verbatim and in order, joined with `\n`: the text a
/// recurrence-rule parser takes.
pub fn recurrence_block(unfolded: &str) -> (r: String)
    ensures
        r@ == join_lines(recurrence_lines(lines(unfolded@))),
{
    let cs = chars_of(unfolded);
    let ls = lines_of(&cs);
    let ghost lv = views(ls@);
    let mut out: Vec<char> = Vec::new();
    let ghost mut kept: Seq<Seq<char>> = Seq::empty();
    let mut any = false;
    let mut i: usize = 0;
    assert(lv.take(0) =~= Seq::<Seq<char>>::empty());
    while i < ls.len()
        invariant
            lv == views(ls@),
            lv == lines(unfolded@),
            i <= ls@.len(),
            kept == recurrence_lines(lv.take(i as int)),
            out@ == join_lines(kept),
            any == (kept.len() > 0),
        decreases ls@.len() - i,
    {
        assert(lv[i as int] == ls@[i as int]@);
        assert(lv.take(i + 1).drop_last() =~= lv.take(i as int));
        assert(lv.take(i + 1).last() == lv[i as int]);
        if is_recurrence_line_of(&ls[i]) {
            let ghost before = kept;
            if any {
                out.push('\n');
            }
            append_from(&mut out, &ls[i], 0);
            any = true;
            proof {
                kept = kept.push(lv[i as int]);
                assert(ls@[i as int]@.skip(0) =~= ls@[i as int]@);
                assert(kept.drop_last() =~= before);
                if before.len() == 0 {
                    assert(kept =~= seq![lv[i as int]]);
                }
            }
        }
        i += 1;
    }
    assert(lv.take(i as int) =~= lv);
    string_of(&out)
}

/// An entry of a key file: section, key and value.
pub type KeyEntry = (Seq<char>, Seq<char>, Seq<char>);

/// Reading the lines `ls` of a key file: the section current after them,
/// the section headers met (in order, repeats kept) and every `key=value`
/// entry met, with the section it was read in. Lines are trimmed; a blank
/// line, or one that is neither a `[name]` header nor has a `=`, is
/// skipped; entries before any header go to the section named "".
pub open spec fn keyfile_read(ls: Seq<Seq<char>>) -> (Seq<char>, Seq<Seq<char>>, Seq<KeyEntry>)
    decreases ls.len(),
{
    if ls.len() == 0 {
        (Seq::empty(), Seq::empty(), Seq::empty())
    } else {
        let (cur, secs, ents) = keyfile_read(ls.drop_last());
        let t = trim_by(ls.last(), Sep::Whitespace);
        if t.len() == 0 {
            (cur, secs, ents)
        } else if t.len() >= 2 && t[0] == '[' && t.last() == ']' {
            let name = t.subrange(1, t.len() - 1);
            (name, secs.push(name), ents)
        } else {
            match split_once(t, '=') {
                Some((k, v)) => (cur, secs, ents.push((cur, k, v))),
                None => (cur, secs, ents),
            }
        }
    }
}

/// The keys and values of section `sec` among the entries `ents`; a later
/// entry wins over an earlier one with the same key.
pub open spec fn section_map(ents: Seq<KeyEntry>, sec: Seq<char>) -> Map<Seq<char>, Seq<char>>
    decreases ents.len(),
{
    if ents.len() == 0 {
        Map::empty()
    } else {
        let m = section_map(ents.drop_last(), sec);
        if ents.last().0 == sec {
            m.insert(ents.last().1, ents.last().2)
        } else {
            m
        }
    }
}

/// Whether a section named `n` exists: it has a header, or an entry.
pub open spec fn has_section_in(secs: Seq<Seq<char>>, ents: Seq<KeyEntry>, n: Seq<char>) -> bool {
    secs.contains(n) || exists|i: int| 0 <= i < ents.len() && (#[trigger] ents[i]).0 == n
}

/// The sections of a key file and the keys and values in each.
pub open spec fn keyfile_map(secs: Seq<Seq<char>>, ents: Seq<KeyEntry>) -> Map<Seq<char>, Map<Seq<char>, Seq<char>>> {
    Map::new(|n: Seq<char>| has_section_in(secs, ents, n), |n: Seq<char>| section_map(ents, n))
}

/// The sections, keys and values of the key-file text `data`.
pub open spec fn keyfile_sections(data: Seq<char>) -> Map<Seq<char>, Map<Seq<char>, Seq<char>>> {
    let (_, secs, ents) = keyfile_read(lines(data));
    keyfile_map(secs, ents)
}

proof fn lemma_section_map_last(ents: Seq<KeyEntry>, sec: Seq<char>, key: Seq<char>, j: int)
    requires
        0 <= j < ents.len(),
        ents[j].0 == sec,
        ents[j].1 == key,
        forall|q: int| j < q < ents.len() ==> !((#[trigger] ents[q]).0 == sec && ents[q].1 == key),
    ensures
        section_map(ents, sec).contains_key(key),
        section_map(ents, sec)[key] == ents[j].2,
    decreases ents.len(),
{
    if j < ents.len() - 1 {
        assert(!(ents[ents.len() - 1].0 == sec && ents[ents.len() - 1].1 == key));
        lemma_section_map_last(ents.drop_last(), sec, key, j);
    }
}

proof fn lemma_section_map_absent(ents: Seq<KeyEntry>, sec: Seq<char>, key: Seq<char>)
    requires
        forall|q: int| 0 <= q < ents.len() ==> !((#[trigger] ents[q]).0 == sec && ents[q].1 == key),
    ensures
        !section_map(ents, sec).contains_key(key),
    decreases ents.len(),
{
    if ents.len() > 0 {
        assert(!(ents[ents.len() - 1].0 == sec && ents[ents.len() - 1].1 == key));
        lemma_section_map_absent(ents.drop_last(), sec, key);
    }
}

/// A parsed key file (the format of a calendar source's description):
/// `[Section]` headers and `key=value` lines.
#[derive(Debug, Clone)]
pub struct KeyFile {
    sections: Vec<String>,
    entries: Vec<(String, String, String)>,
}

impl KeyFile {
    pub closed spec fn section_views(&self) -> Seq<Seq<char>> {
        self.sections@.map_values(|n: String| n@)
    }

    pub closed spec fn entry_views(&self) -> Seq<KeyEntry> {
        self.entries@.map_values(|e: (String, String, String)| (e.0@, e.1@, e.2@))
    }
}

impl View for KeyFile {
    type V = Map<Seq<char>, Map<Seq<char>, Seq<char>>>;

    open spec fn view(&self) -> Map<Seq<char>, Map<Seq<char>, Seq<char>>> {
        keyfile_map(self.section_views(), self.entry_views())
    }
}

impl KeyFile {
    /// Whether the section `name` exists.
    pub fn has_section(&self, name: &str) -> (b: bool)
        ensures
            b == self@.contains_key(name@),
    {
        let n = chars_of(name);
        let ghost sv = self.section_views();
        let ghost ev = self.entry_views();
        let mut i: usize = 0;
        while i < self.sections.len()
            invariant
                n@ == name@,
                sv == self.section_views(),
                i <= self.sections@.len(),
                forall|j: int| 0 <= j < i ==> sv[j] != name@,
            decreases self.sections@.len() - i,
        {
            assert(sv[i as int] == self.sections@[i as int]@);
            if text_equals(self.sections[i].as_str(), &n) {
                assert(sv.contains(name@));
                return true;
            }
            i += 1;
        }
        assert(!sv.contains(name@));
        let mut j: usize = 0;
        while j < self.entries.len()
            invariant
                n@ == name@,
                ev == self.entry_views(),
                j <= self.entries@.len(),
                forall|q: int| 0 <= q < j ==> (#[trigger] ev[q]).0 != name@,
            decreases self.entries@.len() - j,
        {
            assert(ev[j as int].0 == self.entries@[j as int].0@);
            if text_equals(self.entries[j].0.as_str(), &n) {
                assert(has_section_in(sv, ev, name@));
                return true;
            }
            j += 1;
        }
        false
    }

    /// The value of `key` in section `section`, if both exist.
    pub fn get(&self, section: &str, key: &str) -> (r: Option<&str>)
        ensures
            match r {
                Some(v) => self@.contains_key(section@) && self@[section@].contains_key(key@) && self@[section@][key@]
                    == v@,
                None => !(self@.contains_key(section@) && self@[section@].contains_key(key@)),
            },
    {
        let sc = chars_of(section);
        let kc = chars_of(key);
        let ghost ev = self.entry_views();
        let mut i = self.entries.len();
        while i > 0
            invariant
                sc@ == section@,
                kc@ == key@,
                ev == self.entry_views(),
                i <= self.entries@.len(),
                forall|q: int| i <= q < ev.len() ==> !((#[trigger] ev[q]).0 == section@ && ev[q].1 == key@),
            decreases i,
        {
            i -= 1;
            assert(ev[i as int] == (self.entries@[i as int].0@, self.entries@[i as int].1@, self.entries@[i as int].2@));
            if text_equals(self.entries[i].0.as_str(), &sc) && text_equals(self.entries[i].1.as_str(), &kc) {
                proof {
                    lemma_section_map_last(ev, section@, key@, i as int);
                    assert(has_section_in(self.section_views(), ev, section@));
                }
                return Some(self.entries[i].2.as_str());
            }
        }
        proof {
            lemma_section_map_absent(ev, section@, key@);
        }
        None
    }
}

/// Reads the key-file text `data` (the format of a calendar source's
/// description) into its sections and their `key=value` entries.
/// Deliberately minimal: no comments, continuation lines or typed values.
pub fn parse_keyfile_sections(data: &str) -> (r: KeyFile)
    ensures
        r@ == keyfile_sections(data@),
{
    let cs = chars_of(data);
    let ls = lines_of(&cs);
    let ghost lv = views(ls@);
    let mut current: Vec<char> = Vec::new();
    let mut kf = KeyFile { sections: Vec::new(), entries: Vec::new() };
    let mut i: usize = 0;
    assert(lv.take(0) =~= Seq::<Seq<char>>::empty());
    assert(kf.section_views() =~= Seq::<Seq<char>>::empty());
    assert(kf.entry_views() =~= Seq::<KeyEntry>::empty());
    while i < ls.len()
        invariant
            lv == views(ls@),
            lv == lines(data@),
            i <= ls@.len(),
            keyfile_read(lv.take(i as int)) == (current@, kf.section_views(), kf.entry_views()),
        decreases ls@.len() - i,
    {
        assert(lv[i as int] == ls@[i as int]@);
        assert(lv.take(i + 1).drop_last() =~= lv.take(i as int));
        assert(lv.take(i + 1).last() == lv[i as int]);
        let t = crate::text::trim_chars(&ls[i], Sep::Whitespace);
        let tl = t.len();
        if tl == 0 {
        } else if tl >= 2 && t[0] == '[' && t[tl - 1] == ']' {
            let mut name: Vec<char> = Vec::new();
            let mut k: usize = 1;
            while k < tl - 1
                invariant
                    tl == t@.len(),
                    tl >= 2,
                    1 <= k <= tl - 1,
                    name@ == t@.subrange(1, k as int),
                decreases tl - 1 - k,
            {
                name.push(t[k]);
                assert(t@.subrange(1, k + 1) =~= t@.subrange(1, k as int).push(t@[k as int]));
                k += 1;
            }
            let ghost before = kf.section_views();
            kf.sections.push(string_of(&name));
            assert(kf.section_views() =~= before.push(name@));
            current = name;
        } else {
            match split_once_chars(&t, '=') {
                Some((k, v)) => {
                    let ghost before = kf.entry_views();
                    kf.entries.push((string_of(&current), string_of(&k), string_of(&v)));
                    assert(kf.entry_views() =~= before.push((current@, k@, v@)));
                },
                None => {},
            }
        }
        i += 1;
    }
    assert(lv.take(i as int) =~= lv);
    kf
}

/// The value of the `name="..."` attribute in the tag text that follows
/// one `<node` of an introspection document: `part` up to its first `>`
/// is the tag; `None` when the tag has no such attribute or it is empty.
pub open spec fn node_name(part: Seq<char>) -> Option<Seq<char>> {
    let tag = match crate::text::find_char(part, '>') {
        Some(e) => part.take(e),
        None => part,
    };
    match crate::text::find_seq(tag, "name=\""@) {
        Some(idx) => {
            let rest = tag.skip(idx + 6);
            match crate::text::find_char(rest, '"') {
                Some(end) => if end > 0 {
                    Some(rest.take(end))
                } else {
                    None
                },
                None => None,
            }
        },
        None => None,
    }
}

/// The names found in the tag texts `parts`, in order.
pub open spec fn node_names(parts: Seq<Seq<char>>) -> Seq<Seq<char>>
    decreases parts.len(),
{
    if parts.len() == 0 {
        Seq::empty()
    } else {
        match node_name(parts.last()) {
            Some(n) => node_names(parts.drop_last()).push(n),
            None => node_names(parts.drop_last()),
        }
    }
}

/// The names of the `<node name="...">` elements of the introspection
/// document `xml`, in document order.
pub open spec fn child_node_names(xml: Seq<char>) -> Seq<Seq<char>> {
    node_names(crate::text::split_on(xml, "<node"@).skip(1))
}

fn node_name_of(part: &Vec<char>) -> (r: Option<Vec<char>>)
    ensures
        match r {
            Some(n) => node_name(part@) == Some(n@),
            None => node_name(part@) is None,
        },
{
    let tag = match split_once_chars(part, '>') {
        Some((t, _)) => t,
        None => part.clone(),
    };
    assert(tag@ == (match crate::text::find_char(part@, '>') {
        Some(e) => part@.take(e),
        None => part@,
    }));
    match crate::text::find_seq_chars(&tag, "name=\"") {
        Some(idx) => {
            proof {
                crate::text::lemma_find_seq_occurs(tag@, "name=\""@);
                reveal_strlit("name=\"");
            }
            let mut rest: Vec<char> = Vec::new();
            append_from(&mut rest, &tag, idx + 6);
            assert(rest@ =~= tag@.skip(idx + 6));
            proof {
                crate::text::lemma_find_char_bounds(rest@, '"');
            }
            match split_once_chars(&rest, '"') {
                Some((name, _)) => {
                    if name.len() > 0 {
                        Some(name)
                    } else {
                        None
                    }
                },
                None => None,
            }
        },
        None => None,
    }
}

/// Every `<node name="...">` directly named in the introspection document
/// `xml`: how the calendar sources a service offers are enumerated.
pub fn parse_child_node_names(xml: &str) -> (r: Vec<String>)
    ensures
        r@.map_values(|n: String| n@) == child_node_names(xml@),
{
    let cs = chars_of(xml);
    proof {
        reveal_strlit("<node");
    }
    let parts = crate::text::split_on_chars(&cs, "<node");
    let ghost pv = views(parts@);
    let ghost tail = pv.skip(1);
    let mut names: Vec<String> = Vec::new();
    let mut i: usize = 1;
    proof {
        assert(tail.take(0) =~= Seq::<Seq<char>>::empty());
        assert(names@.map_values(|n: String| n@) =~= Seq::<Seq<char>>::empty());
    }
    if parts.len() == 0 {
        assert(tail =~= Seq::<Seq<char>>::empty());
        return names;
    }
    while i < parts.len()
        invariant
            pv == views(parts@),
            tail == pv.skip(1),
            1 <= i <= parts@.len(),
            names@.map_values(|n: String| n@) == node_names(tail.take(i - 1)),
        decreases parts@.len() - i,
    {
        assert(pv[i as int] == parts@[i as int]@);
        assert(tail[i - 1] == pv[i as int]);
        assert(tail.take(i as int).drop_last() =~= tail.take(i - 1));
        assert(tail.take(i as int).last() == tail[i - 1]);
        match node_name_of(&parts[i]) {
            Some(n) => {
                let ghost before = names@.map_values(|n: String| n@);
                names.push(string_of(&n));
                assert(names@.map_values(|n: String| n@) =~= before.push(n@));
            },
            None => {},
        }
        i += 1;
    }
    assert(tail.take(i - 1) =~= tail);
    names
}

/// A calendar the calendar service knows about: enough to open it and to
/// color its event marks.
#[derive(Debug, Clone)]
pub struct CalendarSource {
    pub uid: String,
    pub display_name: String,
    pub color: String,
    pub enabled: bool,
}

/// The color of a calendar's marks when its description names none.
pub const DEFAULT_DOT_HEX: &'static str = "#62a0ea";

/// The value of `key` in section `sec` of `m`, if both exist.
pub open spec fn keyfile_value(m: Map<Seq<char>, Map<Seq<char>, Seq<char>>>, sec: Seq<char>, key: Seq<char>) -> Option<
    Seq<char>,
> {
    if m.contains_key(sec) && m[sec].contains_key(key) {
        Some(m[sec][key])
    } else {
        None
    }
}

/// The calendar described by the source `uid` with key-file description
/// `data`, as uid, display name, color and whether it is enabled; `None`
/// when the description has no `[Calendar]` section (the source is an
/// address book, a mail account, ...). The name comes from
/// `[Data Source] DisplayName` (else the uid), the color from
/// `[Calendar] Color` (else the default), and the source is enabled only
/// when `[Data Source] Enabled` is exactly `true`.
pub open spec fn calendar_source_of(uid: Seq<char>, data: Seq<char>) -> Option<(Seq<char>, Seq<char>, Seq<char>, bool)> {
    let m = keyfile_sections(data);
    if !m.contains_key("Calendar"@) {
        None
    } else {
        let name = match keyfile_value(m, "Data Source"@, "DisplayName"@) {
            Some(n) => n,
            None => uid,
        };
        let color = match keyfile_value(m, "Calendar"@, "Color"@) {
            Some(c) => c,
            None => DEFAULT_DOT_HEX@,
        };
        let enabled = keyfile_value(m, "Data Source"@, "Enabled"@) == Some("true"@);
        Some((uid, name, color, enabled))
    }
}

/// The calendar a source describes, from its uid and its `Data` key-file
/// text; `None` when the source is not a calendar.
pub fn calendar_source_from(uid: &str, data: &str) -> (r: Option<CalendarSource>)
    ensures
        match r {
            Some(c) => calendar_source_of(uid@, data@) == Some((c.uid@, c.display_name@, c.color@, c.enabled)),
            None => calendar_source_of(uid@, data@) is None,
        },
{
    let kf = parse_keyfile_sections(data);
    if !kf.has_section("Calendar") {
        return None;
    }
    let display_name = match kf.get("Data Source", "DisplayName") {
        Some(n) => string_of(&chars_of(n)),
        None => string_of(&chars_of(uid)),
    };
    let color = match kf.get("Calendar", "Color") {
        Some(c) => string_of(&chars_of(c)),
        None => string_of(&chars_of(DEFAULT_DOT_HEX)),
    };
    let enabled = match kf.get("Data Source", "Enabled") {
        Some(v) => text_equals("true", &chars_of(v)),
        None => false,
    };
    Some(CalendarSource { uid: string_of(&chars_of(uid)), display_name, color, enabled })
}

/// A calendar day: year, month (1 to 12), day of the month.
pub type DayKey = (i32, u32, u32);

/// A local time of day: hour and minute.
pub type TimeOfDay = (u32, u32);

/// Whether day `a` is not after day `b`.
pub open spec fn day_le(a: DayKey, b: DayKey) -> bool {
    a.0 < b.0 || (a.0 == b.0 && (a.1 < b.1 || (a.1 == b.1 && a.2 <= b.2)))
}

fn day_le_exec(a: DayKey, b: DayKey) -> (r: bool)
    ensures
        r == day_le(a, b),
{
    a.0 < b.0 || (a.0 == b.0 && (a.1 < b.1 || (a.1 == b.1 && a.2 <= b.2)))
}

fn same_day(a: DayKey, b: DayKey) -> (r: bool)
    ensures
        r == (a == b),
{
    a.0 == b.0 && a.1 == b.1 && a.2 == b.2
}

/// The occurrences of one event shown on a grid from `start` to `end`
/// (inclusive): the expansion of its repetition rules when there is one,
/// else its first occurrence `master` if that falls in the range. The
/// expansion is `None` for an event that does not repeat, and for one
/// whose rules could not be read: such an event is shown once rather than
/// dropped.
pub open spec fn shown_occurrences(
    expanded: Option<Seq<(DayKey, Option<TimeOfDay>)>>,
    master: (DayKey, Option<TimeOfDay>),
    start: DayKey,
    end: DayKey,
) -> Seq<(DayKey, Option<TimeOfDay>)> {
    match expanded {
        Some(v) => v,
        None => if day_le(start, master.0) && day_le(master.0, end) {
            seq![master]
        } else {
            Seq::empty()
        },
    }
}

/// The occurrences of one event to show on a grid from `start` to `end`.
pub fn event_occurrences(
    expanded: Option<Vec<(DayKey, Option<TimeOfDay>)>>,
    master: (DayKey, Option<TimeOfDay>),
    start: DayKey,
    end: DayKey,
) -> (r: Vec<(DayKey, Option<TimeOfDay>)>)
    ensures
        r@ == shown_occurrences(
            match expanded {
                Some(v) => Some(v@),
                None => None,
            },
            master,
            start,
            end,
        ),
{
    match expanded {
        Some(v) => v,
        None => {
            let mut r: Vec<(DayKey, Option<TimeOfDay>)> = Vec::new();
            if day_le_exec(start, master.0) && day_le_exec(master.0, end) {
                r.push(master);
                assert(r@ =~= seq![master]);
            }
            r
        },
    }
}

/// One event as shown on a day: whether it lasts all day, its local start
/// time otherwise, its summary, and the color of its calendar.
#[derive(Debug, Clone)]
pub struct EventInfo {
    pub all_day: bool,
    pub time: Option<TimeOfDay>,
    pub summary: String,
    pub color: String,
}

impl crate::ordering::SortKey for EventInfo {
    /// By start time; an event with no time sorts as if at midnight.
    open spec fn sort_key(&self) -> (int, int, int) {
        match self.time {
            Some((h, m)) => (h as int, m as int, 0),
            None => (0, 0, 0),
        }
    }

    fn key_le(&self, other: &Self) -> (b: bool) {
        let (ah, am) = match self.time {
            Some(t) => t,
            None => (0, 0),
        };
        let (bh, bm) = match other.time {
            Some(t) => t,
            None => (0, 0),
        };
        ah < bh || (ah == bh && am <= bm)
    }
}

/// The days that `e` has entries for, in order of first appearance.
pub open spec fn distinct_days(e: Seq<(DayKey, EventInfo)>) -> Seq<DayKey>
    decreases e.len(),
{
    if e.len() == 0 {
        Seq::empty()
    } else {
        let d = distinct_days(e.drop_last());
        if d.contains(e.last().0) {
            d
        } else {
            d.push(e.last().0)
        }
    }
}

/// The events of the entries of `e` on day `day`, in order.
pub open spec fn events_on(e: Seq<(DayKey, EventInfo)>, day: DayKey) -> Seq<EventInfo>
    decreases e.len(),
{
    if e.len() == 0 {
        Seq::empty()
    } else {
        let r = events_on(e.drop_last(), day);
        if e.last().0 == day {
            r.push(e.last().1)
        } else {
            r
        }
    }
}

proof fn lemma_events_on_absent(e: Seq<(DayKey, EventInfo)>, day: DayKey)
    requires
        !distinct_days(e).contains(day),
    ensures
        events_on(e, day) == Seq::<EventInfo>::empty(),
    decreases e.len(),
{
    if e.len() > 0 {
        let d = distinct_days(e.drop_last());
        if !d.contains(e.last().0) {
            assert(distinct_days(e) == d.push(e.last().0));
            assert(distinct_days(e)[d.len() as int] == e.last().0);
            if d.contains(day) {
                let k = choose|k: int| 0 <= k < d.len() && d[k] == day;
                assert(distinct_days(e)[k] == day);
            }
        }
        lemma_events_on_absent(e.drop_last(), day);
    }
}

proof fn lemma_distinct_days_unique(e: Seq<(DayKey, EventInfo)>)
    ensures
        forall|a: int, b: int|
            0 <= a < b < distinct_days(e).len() ==> distinct_days(e)[a] != distinct_days(e)[b],
    decreases e.len(),
{
    if e.len() > 0 {
        lemma_distinct_days_unique(e.drop_last());
        let d = distinct_days(e.drop_last());
        let x = e.last().0;
        if !d.contains(x) {
            assert forall|a: int, b: int| 0 <= a < b < d.len() + 1 implies #[trigger] d.push(x)[a] != #[trigger] d.push(
                x,
            )[b] by {
                if b == d.len() && d[a] == x {
                    assert(d.contains(x));
                }
            }
        }
    }
}

/// The events of each day that has any, in order of first appearance of
/// the day: each day's events in their order in `entries`, then sorted by
/// start time, stably (all-day events first, as at midnight).
fn collect_by_day(entries: Vec<(DayKey, EventInfo)>) -> (r: (Vec<DayKey>, Vec<Vec<EventInfo>>))
    ensures
        r.0@ == distinct_days(entries@),
        r.1@.len() == r.0@.len(),
        forall|j: int| 0 <= j < r.1@.len() ==> (#[trigger] r.1@[j])@ == events_on(entries@, r.0@[j]),
{
    let ghost all = entries@;
    let mut rest = entries;
    let mut days: Vec<DayKey> = Vec::new();
    let mut groups: Vec<Vec<EventInfo>> = Vec::new();
    let ghost mut n: int = 0;
    assert(all.take(0) =~= Seq::<(DayKey, EventInfo)>::empty());
    assert(all.skip(0) =~= all);
    while rest.len() > 0
        invariant
            0 <= n <= all.len(),
            rest@ == all.skip(n),
            days@ == distinct_days(all.take(n)),
            groups@.len() == days@.len(),
            forall|j: int| 0 <= j < groups@.len() ==> (#[trigger] groups@[j])@ == events_on(all.take(n), days@[j]),
        decreases rest@.len(),
    {
        let (day, ev) = rest.remove(0);
        proof {
            assert(all[n] == (day, ev));
            assert(rest@ =~= all.skip(n + 1));
            assert(all.take(n + 1).drop_last() =~= all.take(n));
            assert(all.take(n + 1).last() == all[n]);
            lemma_distinct_days_unique(all.take(n));
        }
        let mut j: usize = 0;
        while j < days.len() && !same_day(days[j], day)
            invariant
                j <= days@.len(),
                forall|q: int| 0 <= q < j ==> days@[q] != day,
            decreases days@.len() - j,
        {
            j += 1;
        }
        let ghost old_groups = groups@;
        let ghost old_days = days@;
        if j < days.len() {
            let mut g = groups.remove(j);
            g.push(ev);
            groups.insert(j, g);
            proof {
                assert(old_days.contains(day));
                assert forall|k: int| 0 <= k < groups@.len() implies (#[trigger] groups@[k])@ == events_on(
                    all.take(n + 1),
                    days@[k],
                ) by {
                    if k != j {
                        assert(groups@[k] == old_groups[k]);
                        assert(old_days[k] != day);
                    }
                }
            }
        } else {
            days.push(day);
            let mut g: Vec<EventInfo> = Vec::new();
            g.push(ev);
            groups.push(g);
            proof {
                assert(!old_days.contains(day));
                lemma_events_on_absent(all.take(n), day);
                assert forall|k: int| 0 <= k < groups@.len() implies (#[trigger] groups@[k])@ == events_on(
                    all.take(n + 1),
                    days@[k],
                ) by {
                    if k < old_groups.len() {
                        assert(groups@[k] == old_groups[k]);
                        assert(days@[k] == old_days[k]);
                        assert(old_days[k] != day);
                    } else {
                        assert(groups@[k]@ =~= seq![ev]);
                    }
                }
            }
        }
        proof {
            n = n + 1;
        }
    }
    assert(all.take(n) =~= all);
    (days, groups)
}

pub fn group_by_day(entries: Vec<(DayKey, EventInfo)>) -> (r: Vec<(DayKey, Vec<EventInfo>)>)
    ensures
        r@.len() == distinct_days(entries@).len(),
        forall|j: int|
            0 <= j < r@.len() ==> (#[trigger] r@[j]).0 == distinct_days(entries@)[j] && r@[j].1@
                == crate::ordering::sort_by_key(events_on(entries@, r@[j].0)),
{
    let ghost all = entries@;
    let (days, mut groups) = collect_by_day(entries);
    let mut r: Vec<(DayKey, Vec<EventInfo>)> = Vec::new();
    let mut i: usize = 0;
    let ghost gs = groups@;
    let nd = days.len();
    while i < nd
        invariant
            nd == days@.len(),
            i <= days@.len(),
            days@ == distinct_days(all),
            gs.len() == days@.len(),
            groups@ == gs.skip(i as int),
            forall|j: int| 0 <= j < gs.len() ==> (#[trigger] gs[j])@ == events_on(all, days@[j]),
            r@.len() == i,
            forall|j: int|
                0 <= j < i ==> (#[trigger] r@[j]).0 == days@[j] && r@[j].1@ == crate::ordering::sort_by_key(
                    events_on(all, r@[j].0),
                ),
        decreases nd - i,
    {
        assert(gs.skip(i as int).len() == gs.len() - i);
        let g = groups.remove(0);
        assert(g == gs[i as int]);
        assert(groups@ =~= gs.skip(i + 1));
        let sorted = crate::ordering::sort_stable(g);
        r.push((days[i], sorted));
        i += 1;
    }
    r
}

/// The colors of the marks under a day: the distinct calendar colors of
/// its events, in order of first appearance.
pub open spec fn distinct_colors(e: Seq<EventInfo>) -> Seq<Seq<char>>
    decreases e.len(),
{
    if e.len() == 0 {
        Seq::empty()
    } else {
        let d = distinct_colors(e.drop_last());
        if d.contains(e.last().color@) {
            d
        } else {
            d.push(e.last().color@)
        }
    }
}

/// The at most three mark colors shown under a day with events `events`.
pub fn bar_colors(events: &Vec<EventInfo>) -> (r: Vec<String>)
    ensures
        r@.map_values(|c: String| c@) == distinct_colors(events@).take(
            if distinct_colors(events@).len() < 3 {
                distinct_colors(events@).len() as int
            } else {
                3
            },
        ),
{
    let mut all: Vec<String> = Vec::new();
    let mut i: usize = 0;
    assert(events@.take(0) =~= Seq::<EventInfo>::empty());
    while i < events.len()
        invariant
            i <= events@.len(),
            all@.map_values(|c: String| c@) == distinct_colors(events@.take(i as int)),
        decreases events@.len() - i,
    {
        assert(events@.take(i + 1).drop_last() =~= events@.take(i as int));
        assert(events@.take(i + 1).last() == events@[i as int]);
        let ghost av = all@.map_values(|c: String| c@);
        let c = chars_of(events[i].color.as_str());
        let mut j: usize = 0;
        let mut seen = false;
        while j < all.len()
            invariant
                j <= all@.len(),
                av == all@.map_values(|c: String| c@),
                c@ == events@[i as int].color@,
                seen == (exists|q: int| 0 <= q < j && av[q] == c@),
            decreases all@.len() - j,
        {
            assert(av[j as int] == all@[j as int]@);
            if text_equals(all[j].as_str(), &c) {
                seen = true;
            }
            j += 1;
        }
        if !seen {
            all.push(string_of(&c));
            assert(all@.map_values(|c: String| c@) =~= av.push(c@));
        } else {
            assert(av.contains(c@));
        }
        i += 1;
    }
    assert(events@.take(i as int) =~= events@);
    let ghost d = all@.map_values(|c: String| c@);
    let mut r: Vec<String> = Vec::new();
    let mut k: usize = 0;
    while k < all.len() && k < 3
        invariant
            k <= all@.len(),
            k <= 3,
            d == all@.map_values(|c: String| c@),
            r@.map_values(|c: String| c@) == d.take(k as int),
        decreases all@.len() - k,
    {
        assert(d[k as int] == all@[k as int]@);
        let ghost before = r@.map_values(|c: String| c@);
        r.push(string_of(&chars_of(all[k].as_str())));
        assert(r@.map_values(|c: String| c@) =~= before.push(d[k as int]));
        assert(d.take(k + 1) =~= d.take(k as int).push(d[k as int]));
        k += 1;
    }
    r
}

/// `n` written with at least two digits, as `{:02}` writes it.
pub open spec fn two_digits(n: nat) -> Seq<char> {
    if n < 10 {
        seq!['0'] + crate::text::decimal(n)
    } else {
        crate::text::decimal(n)
    }
}

fn push_two_digits(v: &mut Vec<char>, n: u32)
    ensures
        final(v)@ == old(v)@ + two_digits(n as nat),
{
    if n < 10 {
        v.push('0');
    }
    crate::text::push_decimal(v, n as u64);
    if n < 10 {
        assert(old(v)@.push('0') + crate::text::decimal(n as nat) =~= old(v)@ + (seq!['0'] + crate::text::decimal(
            n as nat,
        )));
    }
}

/// When an event happens, as shown next to its summary: `all_day_text`
/// for an all-day event, else its start as `HH:MM`.
pub open spec fn event_when(all_day: bool, time: Option<TimeOfDay>, all_day_text: Seq<char>) -> Seq<char> {
    if all_day {
        all_day_text
    } else {
        match time {
            Some((h, m)) => two_digits(h as nat) + seq![':'] + two_digits(m as nat),
            None => Seq::empty(),
        }
    }
}

/// When `event` happens, with `all_day_text` (translated) for an all-day
/// event.
pub fn format_event_when(event: &EventInfo, all_day_text: &str) -> (r: String)
    ensures
        r@ == event_when(event.all_day, event.time, all_day_text@),
{
    if event.all_day {
        return string_of(&chars_of(all_day_text));
    }
    match event.time {
        Some((h, m)) => {
            let mut v: Vec<char> = Vec::new();
            push_two_digits(&mut v, h);
            v.push(':');
            push_two_digits(&mut v, m);
            assert(v@ =~= two_digits(h as nat) + seq![':'] + two_digits(m as nat));
            string_of(&v)
        },
        None => String::new(),
    }
}

/// One line per event: when it happens, a middle dot, its summary.
pub open spec fn tooltip_lines(events: Seq<EventInfo>, all_day_text: Seq<char>) -> Seq<Seq<char>> {
    events.map_values(
        |e: EventInfo| event_when(e.all_day, e.time, all_day_text) + " \u{b7} "@ + e.summary@,
    )
}

/// The hover text of a day with events `events`: one line per event.
pub fn format_events_tooltip(events: &Vec<EventInfo>, all_day_text: &str) -> (r: String)
    ensures
        r@ == join_lines(tooltip_lines(events@, all_day_text@)),
{
    let ghost tl = tooltip_lines(events@, all_day_text@);
    let mut out: Vec<char> = Vec::new();
    let mut i: usize = 0;
    proof {
        reveal_strlit(" \u{b7} ");
    }
    while i < events.len()
        invariant
            i <= events@.len(),
            tl == tooltip_lines(events@, all_day_text@),
            tl.len() == events@.len(),
            out@ == join_lines(tl.take(i as int)),
        decreases events@.len() - i,
    {
        let ghost before = out@;
        if i > 0 {
            out.push('\n');
        }
        let when = format_event_when(&events[i], all_day_text);
        crate::text::push_str(&mut out, when.as_str());
        crate::text::push_str(&mut out, " \u{b7} ");
        crate::text::push_str(&mut out, events[i].summary.as_str());
        proof {
            assert(tl.take(i + 1).drop_last() =~= tl.take(i as int));
            assert(tl.take(i + 1).last() == tl[i as int]);
            if i == 0 {
                assert(tl.take(1) =~= seq![tl[0]]);
                assert(out@ =~= tl[0]);
            } else {
                assert(out@ =~= before.push('\n') + tl[i as int]);
            }
        }
        i += 1;
    }
    assert(tl.take(i as int) =~= tl);
    string_of(&out)
}

/// Whether `c` is an ASCII letter or digit.
pub open spec fn is_ascii_alnum(c: char) -> bool {
    ('0' <= c && c <= '9') || ('a' <= c && c <= 'z') || ('A' <= c && c <= 'Z')
}

/// The ASCII letters and digits of `s`, in order.
pub open spec fn alnum_only(s: Seq<char>) -> Seq<char>
    decreases s.len(),
{
    if s.len() == 0 {
        s
    } else if is_ascii_alnum(s.last()) {
        alnum_only(s.drop_last()).push(s.last())
    } else {
        alnum_only(s.drop_last())
    }
}

/// The style class that paints a mark in `color` (a hex string such as
/// `#448aff`): a fixed prefix and the color's letters and digits.
pub fn bar_color_class(color: &str) -> (r: String)
    ensures
        r@ == "xeneon-agenda-bar-"@ + alnum_only(color@),
{
    let cs = chars_of(color);
    let mut v: Vec<char> = Vec::new();
    crate::text::push_str(&mut v, "xeneon-agenda-bar-");
    let ghost pre = v@;
    let mut i: usize = 0;
    assert(cs@.take(0) =~= Seq::<char>::empty());
    while i < cs.len()
        invariant
            i <= cs@.len(),
            cs@ == color@,
            v@ == pre + alnum_only(cs@.take(i as int)),
        decreases cs@.len() - i,
    {
        assert(cs@.take(i + 1).drop_last() =~= cs@.take(i as int));
        assert(cs@.take(i + 1).last() == cs@[i as int]);
        let c = cs[i];
        if ('0' <= c && c <= '9') || ('a' <= c && c <= 'z') || ('A' <= c && c <= 'Z') {
            v.push(c);
            assert(v@ =~= pre + alnum_only(cs@.take(i + 1)));
        }
        i += 1;
    }
    assert(cs@.take(i as int) =~= cs@);
    string_of(&v)
}

/// The color of today's number, drawn on its light square.
pub const TODAY_TEXT_HEX: &'static str = "#000000";

/// Whether grid column `col` (Monday first) is a weekend day.
pub open spec fn is_weekend_col(col: int) -> bool {
    col == 5 || col == 6
}

/// How one day cell of the month grid is drawn.
#[derive(Debug, Clone)]
pub struct DayCellLook {
    /// The color of the day's number; `None` for the default.
    pub color: Option<String>,
    /// Whether the number is dimmed (a day of the previous or next month).
    pub dim: bool,
    /// Whether the day is today, drawn on a square.
    pub today: bool,
}

/// How the cell at `index` (reading order, Monday first) showing `day` is
/// drawn when it is `today`: today's number in the today color on its
/// square, a weekend day's number in `weekend_hex`, and a day of another
/// month dimmed.
pub fn day_cell_look(index: usize, day: DayKey, today: DayKey, weekend_hex: &str) -> (r: DayCellLook)
    ensures
        r.today == (day == today),
        r.dim == (day.1 != today.1),
        match r.color {
            Some(c) => if day == today {
                c@ == TODAY_TEXT_HEX@
            } else {
                is_weekend_col(index as int % 7) && c@ == weekend_hex@
            },
            None => day != today && !is_weekend_col(index as int % 7),
        },
{
    let col = index % 7;
    let is_today = same_day(day, today);
    let color = if is_today {
        Some(string_of(&chars_of(TODAY_TEXT_HEX)))
    } else if col == 5 || col == 6 {
        Some(string_of(&chars_of(weekend_hex)))
    } else {
        None
    };
    DayCellLook { color, dim: day.1 != today.1, today: is_today }
}

/// The color of the weekday header of column `col`: `weekend_hex` on the
/// weekend columns, the default elsewhere.
pub fn header_color(col: usize, weekend_hex: &str) -> (r: Option<String>)
    ensures
        match r {
            Some(c) => is_weekend_col(col as int) && c@ == weekend_hex@,
            None => !is_weekend_col(col as int),
        },
{
    if col == 5 || col == 6 {
        Some(string_of(&chars_of(weekend_hex)))
    } else {
        None
    }
}

/// The three texts of the agenda's date panel for today: the long name of
/// the day of the week, the day of the month, and the full-date template
/// with the long month name and the year substituted.
pub open spec fn date_panel(
    active: Map<Seq<char>, Seq<char>>,
    fallback: Map<Seq<char>, Seq<char>>,
    weekday: u32,
    day: u32,
    month0: u32,
    year: i32,
) -> (Seq<char>, Seq<char>, Seq<char>) {
    let weekday_name = crate::i18n::lookup_text(
        active,
        fallback,
        "widgets.agenda.days_long."@ + crate::clock::day_key_of(weekday),
    );
    let month_name = crate::i18n::lookup_text(
        active,
        fallback,
        "widgets.agenda.months_long."@ + crate::clock::month_key_of(month0),
    );
    let full = crate::i18n::substitute(
        crate::i18n::lookup_text(active, fallback, "widgets.agenda.date_full"@),
        seq![("month"@, month_name), ("year"@, crate::text::signed_decimal(year as int))],
    );
    (weekday_name, crate::text::decimal(day as nat), full)
}

/// The texts of the agenda's date panel for the given day of the week
/// (Monday first), day of the month, month (January first) and year.
pub fn date_panel_texts(
    active: &crate::i18n::Catalog,
    fallback: &crate::i18n::Catalog,
    weekday: u32,
    day: u32,
    month0: u32,
    year: i32,
) -> (r: (String, String, String))
    requires
        weekday < 7,
        month0 < 12,
    ensures
        (r.0@, r.1@, r.2@) == date_panel(active@, fallback@, weekday, day, month0, year),
{
    let no_args: Vec<(&str, &str)> = Vec::new();
    assert(crate::i18n::arg_views(no_args@) =~= Seq::<(Seq<char>, Seq<char>)>::empty());
    let wk = crate::text::concat("widgets.agenda.days_long.", crate::clock::day_key(weekday));
    let weekday_name = crate::i18n::translate(active, fallback, wk.as_str(), no_args.as_slice());
    let mk = crate::text::concat("widgets.agenda.months_long.", crate::clock::month_key(month0));
    let month_name = crate::i18n::translate(active, fallback, mk.as_str(), no_args.as_slice());
    let mut yv: Vec<char> = Vec::new();
    crate::text::push_signed_decimal(&mut yv, year as i64);
    assert(yv@ =~= crate::text::signed_decimal(year as int));
    let year_s = string_of(&yv);
    let args: Vec<(&str, &str)> = vec![("month", month_name.as_str()), ("year", year_s.as_str())];
    assert(crate::i18n::arg_views(args@) =~= seq![("month"@, month_name@), ("year"@, year_s@)]);
    let full = crate::i18n::translate(active, fallback, "widgets.agenda.date_full", args.as_slice());
    (weekday_name, crate::text::decimal_string(day as u64), full)
}

/// Each day's events come out sorted by start time and are exactly the
/// events of that day, none lost and none added.
pub proof fn lemma_day_groups_sorted_and_complete(entries: Seq<(DayKey, EventInfo)>, day: DayKey)
    ensures
        crate::ordering::sorted_by_key(crate::ordering::sort_by_key(events_on(entries, day))),
        crate::ordering::sort_by_key(events_on(entries, day)).to_multiset() == events_on(entries, day).to_multiset(),
{
    crate::ordering::lemma_sort_by_key_sorted_permutation(events_on(entries, day));
}

/// Every day that has an event gets a group, and no day gets two.
pub proof fn lemma_every_event_day_has_one_group(entries: Seq<(DayKey, EventInfo)>)
    ensures
        forall|i: int| 0 <= i < entries.len() ==> distinct_days(entries).contains(#[trigger] entries[i].0),
        forall|a: int, b: int|
            0 <= a < b < distinct_days(entries).len() ==> distinct_days(entries)[a] != distinct_days(entries)[b],
    decreases entries.len(),
{
    lemma_distinct_days_unique(entries);
    if entries.len() > 0 {
        lemma_every_event_day_has_one_group(entries.drop_last());
        let d = distinct_days(entries.drop_last());
        assert forall|i: int| 0 <= i < entries.len() implies distinct_days(entries).contains(#[trigger] entries[i].0) by {
            if i < entries.len() - 1 {
                assert(entries.drop_last()[i] == entries[i]);
                assert(d.contains(entries[i].0));
                let k = choose|k: int| 0 <= k < d.len() && d[k] == entries[i].0;
                if !d.contains(entries.last().0) {
                    assert(distinct_days(entries)[k] == d[k]);
                }
            } else if !d.contains(entries.last().0) {
                assert(distinct_days(entries)[d.len() as int] == entries.last().0);
            }
        }
    }
}

/// The most occurrences of one repeating event ever computed for one grid:
/// a backstop against a rule without an end.
pub const MAX_OCCURRENCES_PER_EVENT: u16 = 500;

/// Parses the repetition block `block` with `rrule::RRuleSet::from_str`
/// and lists, with `RRuleSet::all(limit)`, its occurrences from `after` to
/// `before` (inclusive), as seconds since the Unix epoch. Trusted, from the
/// crate's source, to give at most `limit` occurrences, each within that
/// range; `None` when the block does not parse or a bound is not a valid
/// instant. Which occurrences come back is left unsaid: a floating start
/// time is read in the machine's own time zone.
#[verifier::external_body]
fn rrule_occurrences(block: &str, after: i64, before: i64, limit: u16) -> (r: Option<Vec<i64>>)
    ensures
        match r {
            Some(v) => v@.len() <= limit && forall|i: int| 0 <= i < v@.len() ==> after <= #[trigger] v@[i] <= before,
            None => true,
        },
{
    let set: rrule::RRuleSet = block.parse().ok()?;
    let after = chrono::DateTime::from_timestamp(after, 0)?.with_timezone(&rrule::Tz::UTC);
    let before = chrono::DateTime::from_timestamp(before, 0)?.with_timezone(&rrule::Tz::UTC);
    Some(set.after(after).before(before).all(limit).dates.iter().map(|d| d.timestamp()).collect())
}

/// Every instant (seconds since the Unix epoch) from `start` to `end` at
/// which the repeating event with unfolded text `unfolded` occurs, from its
/// own `DTSTART`/`RRULE`/`EXRULE`/`RDATE`/`EXDATE` lines handed verbatim to
/// a recurrence-rule parser; at most `MAX_OCCURRENCES_PER_EVENT` of them.
/// `None` when those lines do not parse: the caller then shows only the
/// event's first occurrence.
pub fn expand_recurring(unfolded: &str, start: i64, end: i64) -> (r: Option<Vec<i64>>)
    ensures
        match r {
            Some(v) => v@.len() <= MAX_OCCURRENCES_PER_EVENT && forall|i: int|
                0 <= i < v@.len() ==> start <= #[trigger] v@[i] <= end,
            None => true,
        },
{
    let block = recurrence_block(unfolded);
    rrule_occurrences(block.as_str(), start, end, MAX_OCCURRENCES_PER_EVENT)
}

/// The uids of the enabled calendars among `sources`, in order.
pub open spec fn enabled_uids(sources: Seq<CalendarSource>) -> Seq<Seq<char>>
    decreases sources.len(),
{
    if sources.len() == 0 {
        Seq::empty()
    } else if sources.last().enabled {
        enabled_uids(sources.drop_last()).push(sources.last().uid@)
    } else {
        enabled_uids(sources.drop_last())
    }
}

/// The calendars a newly added agenda shows: every enabled one.
pub fn default_selected_uids(sources: &Vec<CalendarSource>) -> (r: Vec<String>)
    ensures
        r@.map_values(|u: String| u@) == enabled_uids(sources@),
{
    let mut r: Vec<String> = Vec::new();
    let mut i: usize = 0;
    assert(sources@.take(0) =~= Seq::<CalendarSource>::empty());
    while i < sources.len()
        invariant
            i <= sources@.len(),
            r@.map_values(|u: String| u@) == enabled_uids(sources@.take(i as int)),
        decreases sources@.len() - i,
    {
        assert(sources@.take(i + 1).drop_last() =~= sources@.take(i as int));
        assert(sources@.take(i + 1).last() == sources@[i as int]);
        if sources[i].enabled {
            let ghost before = r@.map_values(|u: String| u@);
            r.push(string_of(&chars_of(sources[i].uid.as_str())));
            assert(r@.map_values(|u: String| u@) =~= before.push(sources@[i as int].uid@));
        }
        i += 1;
    }
    assert(sources@.take(i as int) =~= sources@);
    r
}

/// Whether the events of `source` are fetched: it must be enabled and
/// among the calendars the user selected, `selected`.
pub fn is_queried(source: &CalendarSource, selected: &Vec<String>) -> (b: bool)
    ensures
        b == (source.enabled && selected@.map_values(|u: String| u@).contains(source.uid@)),
{
    if !source.enabled {
        return false;
    }
    let ghost sv = selected@.map_values(|u: String| u@);
    let uid = chars_of(source.uid.as_str());
    let mut i: usize = 0;
    while i < selected.len()
        invariant
            i <= selected@.len(),
            sv == selected@.map_values(|u: String| u@),
            uid@ == source.uid@,
            source.enabled,
            forall|j: int| 0 <= j < i ==> sv[j] != source.uid@,
        decreases selected@.len() - i,
    {
        assert(sv[i as int] == selected@[i as int]@);
        if text_equals(selected[i].as_str(), &uid) {
            assert(sv.contains(source.uid@));
            return true;
        }
        i += 1;
    }
    false
}

/// Code-point order on texts, the order `String`'s comparison gives.
pub open spec fn text_lt(a: Seq<char>, b: Seq<char>) -> bool
    decreases a.len(),
{
    if a.len() == 0 {
        b.len() > 0
    } else if b.len() == 0 {
        false
    } else if a[0] != b[0] {
        a[0] < b[0]
    } else {
        text_lt(a.skip(1), b.skip(1))
    }
}

proof fn lemma_text_lt_irreflexive(a: Seq<char>)
    ensures
        !text_lt(a, a),
    decreases a.len(),
{
    if a.len() > 0 {
        lemma_text_lt_irreflexive(a.skip(1));
    }
}

proof fn lemma_text_lt_total(a: Seq<char>, b: Seq<char>)
    ensures
        a == b || text_lt(a, b) || text_lt(b, a),
    decreases a.len(),
{
    if a.len() > 0 && b.len() > 0 && a[0] == b[0] {
        lemma_text_lt_total(a.skip(1), b.skip(1));
        if a.skip(1) == b.skip(1) {
            assert(a =~= seq![a[0]] + a.skip(1));
            assert(b =~= seq![b[0]] + b.skip(1));
        }
    } else if a.len() > 0 && b.len() > 0 {
    } else if a.len() == 0 && b.len() == 0 {
        assert(a =~= b);
    }
}

proof fn lemma_text_lt_asymmetric(a: Seq<char>, b: Seq<char>)
    requires
        text_lt(a, b),
    ensures
        !text_lt(b, a),
    decreases a.len(),
{
    if a.len() > 0 && b.len() > 0 && a[0] == b[0] {
        lemma_text_lt_asymmetric(a.skip(1), b.skip(1));
    }
}

proof fn lemma_text_lt_transitive(a: Seq<char>, b: Seq<char>, c: Seq<char>)
    requires
        text_lt(a, b),
        text_lt(b, c),
    ensures
        text_lt(a, c),
    decreases a.len(),
{
    if a.len() > 0 && b.len() > 0 && c.len() > 0 && a[0] == b[0] && b[0] == c[0] {
        lemma_text_lt_transitive(a.skip(1), b.skip(1), c.skip(1));
    }
}

/// Code-point order is a strict total order: no text comes before itself,
/// of two different texts exactly one comes first, and it is transitive;
/// so the saved order of a selection is well defined.
pub proof fn lemma_text_order_is_strict_total(a: Seq<char>, b: Seq<char>, c: Seq<char>)
    ensures
        !text_lt(a, a),
        a != b ==> (text_lt(a, b) || text_lt(b, a)),
        text_lt(a, b) ==> !text_lt(b, a),
        text_lt(a, b) && text_lt(b, c) ==> text_lt(a, c),
{
    lemma_text_lt_irreflexive(a);
    lemma_text_lt_total(a, b);
    if text_lt(a, b) {
        lemma_text_lt_asymmetric(a, b);
        if text_lt(b, c) {
            lemma_text_lt_transitive(a, b, c);
        }
    }
}

/// Whether `a` comes before `b` in code-point order.
pub(crate) fn text_less(a: &Vec<char>, b: &Vec<char>) -> (r: bool)
    ensures
        r == text_lt(a@, b@),
{
    let mut i: usize = 0;
    assert(a@.skip(0) =~= a@);
    assert(b@.skip(0) =~= b@);
    while i < a.len() && i < b.len() && a[i] == b[i]
        invariant
            i <= a@.len(),
            i <= b@.len(),
            text_lt(a@, b@) == text_lt(a@.skip(i as int), b@.skip(i as int)),
        decreases a@.len() - i,
    {
        assert(a@.skip(i as int).skip(1) =~= a@.skip(i + 1));
        assert(b@.skip(i as int).skip(1) =~= b@.skip(i + 1));
        i += 1;
    }
    if i == a.len() {
        assert(a@.skip(i as int).len() == 0);
        i < b.len()
    } else if i == b.len() {
        false
    } else {
        assert(a@.skip(i as int)[0] == a@[i as int]);
        assert(b@.skip(i as int)[0] == b@[i as int]);
        a[i] < b[i]
    }
}

/// Whether the texts `s` are in strictly increasing code-point order.
pub open spec fn strictly_sorted(s: Seq<Seq<char>>) -> bool {
    forall|i: int, j: int| 0 <= i < j < s.len() ==> text_lt(#[trigger] s[i], #[trigger] s[j])
}

/// Whether `a` and `b` hold the same texts, however often and in
/// whatever order.
pub open spec fn same_members(a: Seq<Seq<char>>, b: Seq<Seq<char>>) -> bool {
    forall|u: Seq<char>| #![trigger a.contains(u)] #![trigger b.contains(u)] a.contains(u) <==> b.contains(u)
}

/// The selected calendars as saved: their uids in code-point order, each
/// once.
pub fn saved_selection(uids: &Vec<String>) -> (r: Vec<String>)
    ensures
        strictly_sorted(r@.map_values(|u: String| u@)),
        same_members(r@.map_values(|x: String| x@), uids@.map_values(|x: String| x@)),
{
    let ghost uv = uids@.map_values(|x: String| x@);
    let mut out: Vec<Vec<char>> = Vec::new();
    let mut i: usize = 0;
    while i < uids.len()
        invariant
            i <= uids@.len(),
            uv == uids@.map_values(|x: String| x@),
            strictly_sorted(views(out@)),
            same_members(views(out@), uv.take(i as int)),
        decreases uids@.len() - i,
    {
        let c = chars_of(uids[i].as_str());
        assert(uv[i as int] == c@);
        let ghost before = views(out@);
        let mut k: usize = 0;
        while k < out.len() && text_less(&out[k], &c)
            invariant
                k <= out@.len(),
                before == views(out@),
                forall|q: int| 0 <= q < k ==> text_lt(#[trigger] before[q], c@),
            decreases out@.len() - k,
        {
            assert(before[k as int] == out@[k as int]@);
            k += 1;
        }
        let present = k < out.len() && text_equals_vec(&out[k], &c);
        let ghost t0 = uv.take(i as int);
        let ghost t1 = uv.take(i + 1);
        proof {
            assert(t1 =~= t0.push(c@));
        }
        if !present {
            proof {
                if k < out@.len() {
                    assert(before[k as int] == out@[k as int]@);
                    assert(!text_lt(before[k as int], c@));
                    lemma_text_lt_total(before[k as int], c@);
                    assert(text_lt(c@, before[k as int]));
                }
            }
            out.insert(k, c);
            proof {
                let after = views(out@);
                assert(after =~= before.take(k as int).push(c@) + before.skip(k as int));
                assert forall|a: int, b: int| 0 <= a < b < after.len() implies text_lt(#[trigger] after[a], #[trigger] after[b]) by {
                    if b < k {
                        assert(after[a] == before[a] && after[b] == before[b]);
                    } else if b == k {
                        assert(after[a] == before[a]);
                    } else if a == k {
                        assert(after[b] == before[b - 1]);
                        if b - 1 > k {
                            assert(text_lt(before[k as int], before[b - 1]));
                            lemma_text_lt_transitive(c@, before[k as int], before[b - 1]);
                        }
                    } else if a < k {
                        assert(after[a] == before[a] && after[b] == before[b - 1]);
                        if a < b - 1 {
                        } else {
                        }
                    } else {
                        assert(after[a] == before[a - 1] && after[b] == before[b - 1]);
                    }
                }
                assert forall|u: Seq<char>| #![trigger after.contains(u)] #![trigger t1.contains(u)] after.contains(u) <==> t1.contains(u) by {
                    if after.contains(u) {
                        let w = choose|w: int| 0 <= w < after.len() && after[w] == u;
                        if w < k {
                            assert(before[w] == u);
                            assert(before.contains(u));
                        } else if w > k {
                            assert(before[w - 1] == u);
                            assert(before.contains(u));
                        } else {
                            assert(t1[i as int] == u);
                        }
                    }
                    if t1.contains(u) {
                        let w = choose|w: int| 0 <= w < t1.len() && t1[w] == u;
                        if w < i {
                            assert(t0[w] == u);
                            assert(before.contains(u));
                            let v = choose|v: int| 0 <= v < before.len() && before[v] == u;
                            if v < k {
                                assert(after[v] == u);
                            } else {
                                assert(after[v + 1] == u);
                            }
                        } else {
                            assert(after[k as int] == u);
                        }
                    }
                }
            }
        } else {
            proof {
                assert(before[k as int] == out@[k as int]@);
                assert(before[k as int] == c@);
                assert forall|u: Seq<char>| #![trigger before.contains(u)] #![trigger t1.contains(u)] before.contains(u) <==> t1.contains(u) by {
                    if t1.contains(u) {
                        let w = choose|w: int| 0 <= w < t1.len() && t1[w] == u;
                        if w < i {
                            assert(t0[w] == u);
                        }
                    }
                    if before.contains(u) {
                        assert(t0.contains(u));
                        let w = choose|w: int| 0 <= w < t0.len() && t0[w] == u;
                        assert(t1[w] == u);
                    }
                }
            }
        }
        i += 1;
    }
    assert(uv.take(i as int) =~= uv);
    let mut r: Vec<String> = Vec::new();
    let mut j: usize = 0;
    let ghost ov = views(out@);
    while j < out.len()
        invariant
            j <= out@.len(),
            ov == views(out@),
            r@.map_values(|x: String| x@) == ov.take(j as int),
        decreases out@.len() - j,
    {
        let ghost before = r@.map_values(|x: String| x@);
        r.push(string_of(&out[j]));
        assert(ov[j as int] == out@[j as int]@);
        assert(r@.map_values(|x: String| x@) =~= before.push(ov[j as int]));
        assert(ov.take(j + 1) =~= ov.take(j as int).push(ov[j as int]));
        j += 1;
    }
    assert(ov.take(j as int) =~= ov);
    r
}

fn text_equals_vec(a: &Vec<char>, b: &Vec<char>) -> (r: bool)
    ensures
        r == (a@ == b@),
{
    if a.len() != b.len() {
        return false;
    }
    let mut i: usize = 0;
    while i < a.len()
        invariant
            a@.len() == b@.len(),
            i <= a@.len(),
            forall|q: int| 0 <= q < i ==> a@[q] == b@[q],
        decreases a@.len() - i,
    {
        if a[i] != b[i] {
            return false;
        }
        i += 1;
    }
    assert(a@ =~= b@);
    true
}

/// Where an occurrence falls locally: its day, and its time of day unless
/// the event lasts all day.
pub type Occurrence = (DayKey, Option<TimeOfDay>);

/// A local day and time as chrono reports them: month `1..=12`, day
/// `1..=31`, hour `0..=23`, minute `0..=59`.
pub open spec fn valid_local(o: (DayKey, TimeOfDay)) -> bool {
    1 <= o.0.1 <= 12 && 1 <= o.0.2 <= 31 && o.1.0 < 24 && o.1.1 < 60
}

/// The number of days from 1970-01-01 to the day `(y, m, d)` of the
/// proleptic Gregorian calendar (negative before it).
pub open spec fn days_from_civil(y: int, m: int, d: int) -> int {
    let yy = if m <= 2 {
        y - 1
    } else {
        y
    };
    let era = yy / 400;
    let yoe = yy - era * 400;
    let mp = if m > 2 {
        m - 3
    } else {
        m + 9
    };
    let doy = (153 * mp + 2) / 5 + d - 1;
    let doe = yoe * 365 + yoe / 4 - yoe / 100 + doy;
    era * 146097 + doe - 719468
}

/// The seconds since 1970-01-01 00:00 of the wall time `t`, read as if in
/// UTC.
pub open spec fn civil_seconds(t: CivilDateTime) -> int {
    days_from_civil(t.year as int, t.month as int, t.day as int) * 86400 + t.hour * 3600 + t.minute * 60 + t.second
}

/// The seconds since 1970-01-01 00:00 at which the local minute `o`
/// begins, read as if in UTC.
pub open spec fn minute_start(o: (DayKey, TimeOfDay)) -> int {
    days_from_civil(o.0.0 as int, o.0.1 as int, o.0.2 as int) * 86400 + o.1.0 * 3600 + o.1.1 * 60
}

/// Whether the local minute `o` holds the moment `secs + off` for some
/// offset `off` with `-bound < off < bound` seconds: the wall time `secs`
/// (or instant) moved by a time-zone offset.
pub open spec fn shifted_within(secs: int, bound: int, o: (DayKey, TimeOfDay)) -> bool {
    -bound - 59 < minute_start(o) - secs < bound
}

/// Whether `o` is a local minute chrono can report for the wall time or
/// instant `secs` moved by less than `bound` seconds.
pub open spec fn placed_near(secs: int, bound: int, o: (DayKey, TimeOfDay)) -> bool {
    valid_local(o) && shifted_within(secs, bound, o)
}

/// Converts the UTC date-time `t` to the machine's local time zone with
/// `chrono::Utc.from_utc_datetime(..).with_timezone(&chrono::Local)`;
/// `None` when `t` is no valid date-time. The local time is `t` moved by
/// the machine's offset, a `FixedOffset` and so less than a day either
/// way; which offset is the machine's to say.
#[verifier::external_body]
fn utc_to_local(t: CivilDateTime) -> (r: Option<(DayKey, TimeOfDay)>)
    ensures
        r matches Some(o) ==> placed_near(civil_seconds(t), 86400, o),
{
    let n = chrono::NaiveDate::from_ymd_opt(t.year, t.month, t.day)?.and_hms_opt(t.hour, t.minute, t.second)?;
    let l = chrono::Utc.from_utc_datetime(&n).with_timezone(&chrono::Local);
    Some(((l.year(), l.month(), l.day()), (l.hour(), l.minute())))
}

/// Reads `t` in the IANA zone `zone` (`chrono_tz::Tz` parsed from its name,
/// `TimeZone::from_local_datetime(..).single()`) and converts it to the
/// machine's local time zone; `None` for an unknown zone, an invalid
/// date-time, or a wall time the zone skips or repeats. The local time is
/// `t` moved back by the zone's offset and forward by the machine's, each
/// less than a day either way; which offsets those are is left unsaid.
#[verifier::external_body]
fn zoned_to_local(zone: &str, t: CivilDateTime) -> (r: Option<(DayKey, TimeOfDay)>)
    ensures
        r matches Some(o) ==> placed_near(civil_seconds(t), 172800, o),
{
    let tz: chrono_tz::Tz = zone.parse().ok()?;
    let n = chrono::NaiveDate::from_ymd_opt(t.year, t.month, t.day)?.and_hms_opt(t.hour, t.minute, t.second)?;
    let l = tz.from_local_datetime(&n).single()?.with_timezone(&chrono::Local);
    Some(((l.year(), l.month(), l.day()), (l.hour(), l.minute())))
}

/// Reads `t` as a wall time of the machine's local time zone with
/// `chrono::Local.from_local_datetime(..).single()`; `None` for an invalid
/// date-time or a wall time the zone skips or repeats. Whether it exists
/// depends on the machine; when it does, it keeps the wall time it was
/// given, so its day, hour and minute are those of `t`.
#[verifier::external_body]
fn floating_to_local(t: CivilDateTime) -> (r: Option<(DayKey, TimeOfDay)>)
    ensures
        r matches Some(o) ==> valid_local(o) && o == ((t.year, t.month, t.day), (t.hour, t.minute)),
{
    let n = chrono::NaiveDate::from_ymd_opt(t.year, t.month, t.day)?.and_hms_opt(t.hour, t.minute, t.second)?;
    let l = chrono::Local.from_local_datetime(&n).single()?;
    Some(((l.year(), l.month(), l.day()), (l.hour(), l.minute())))
}

/// The local day and time, in the machine's time zone, of the instant
/// `timestamp` (seconds since the Unix epoch), by
/// `chrono::DateTime::from_timestamp` and `with_timezone(&chrono::Local)`;
/// `None` for an instant chrono cannot represent. The local time is the
/// instant moved by the machine's offset, less than a day either way;
/// which offset is the machine's to say.
#[verifier::external_body]
fn instant_to_local(timestamp: i64) -> (r: Option<(DayKey, TimeOfDay)>)
    ensures
        r matches Some(o) ==> placed_near(timestamp as int, 86400, o),
{
    let l = chrono::DateTime::from_timestamp(timestamp, 0)?.with_timezone(&chrono::Local);
    Some(((l.year(), l.month(), l.day()), (l.hour(), l.minute())))
}

/// What `local_start` may give for the start `st`: a date-only start on
/// its own day with no time; a floating start at its own wall time when
/// that exists locally; a UTC start moved by less than a day and a zoned
/// one by less than two, when they convert; `None` for no start but a
/// date-only one.
pub open spec fn start_placement(st: StartSpec, r: Option<Occurrence>) -> bool {
    match st {
        StartSpec::Date(y, m, d) => r == Some(((y, m, d), None::<TimeOfDay>)),
        StartSpec::Floating(t) => r matches Some(o) ==> o == ((t.year, t.month, t.day), Some((t.hour, t.minute)))
            && valid_local((o.0, (t.hour, t.minute))),
        StartSpec::Utc(t) => r matches Some(o) ==> o.1 is Some && placed_near(
            civil_seconds(t),
            86400,
            (o.0, o.1.unwrap()),
        ),
        StartSpec::Zoned(_, t) => r matches Some(o) ==> o.1 is Some && placed_near(
            civil_seconds(t),
            172800,
            (o.0, o.1.unwrap()),
        ),
    }
}

/// What `local_instant` may give for the instant `ts`: `None`, or a local
/// minute with a time, the instant moved by less than a day.
pub open spec fn instant_placement(ts: int, r: Option<Occurrence>) -> bool {
    r matches Some(o) ==> o.1 is Some && placed_near(ts, 86400, (o.0, o.1.unwrap()))
}

/// The local day (and, unless the event lasts all day, local time) an
/// event starts on. A date-only start passes through with no time; any
/// other start is converted to the machine's time zone, which decides
/// whether it exists there (`None` when not) and where it falls.
pub fn local_start(start: &DtStart) -> (r: Option<Occurrence>)
    ensures
        start_placement(start@, r),
{
    let local = match start {
        DtStart::Date(y, m, d) => {
            return Some(((*y, *m, *d), None));
        },
        DtStart::Utc(t) => utc_to_local(*t),
        DtStart::Zoned(zone, t) => zoned_to_local(zone.as_str(), *t),
        DtStart::Floating(t) => floating_to_local(*t),
    };
    match local {
        Some((day, time)) => Some((day, Some(time))),
        None => None,
    }
}

/// The local day and time of the instant `timestamp` (seconds since the
/// Unix epoch) in the machine's time zone; `None` when chrono cannot
/// represent it.
pub fn local_instant(timestamp: i64) -> (r: Option<Occurrence>)
    ensures
        instant_placement(timestamp as int, r),
{
    match instant_to_local(timestamp) {
        Some((day, time)) => Some((day, Some(time))),
        None => None,
    }
}

/// The occurrences of an expansion that could be placed on a local day,
/// in order.
pub open spec fn placed(v: Seq<Option<Occurrence>>) -> Seq<Occurrence>
    decreases v.len(),
{
    if v.len() == 0 {
        Seq::empty()
    } else {
        match v.last() {
            Some(o) => placed(v.drop_last()).push(o),
            None => placed(v.drop_last()),
        }
    }
}

/// The occurrences one event shows on a grid from `start` to `end`: an
/// event that repeats (`repeats`) and whose rules were expanded shows the
/// expanded occurrences that could be placed on a local day; any other
/// shows its first occurrence `master` when that falls in the range.
pub open spec fn event_shown(
    master: Occurrence,
    repeats: bool,
    expansion: Option<Seq<Option<Occurrence>>>,
    start: DayKey,
    end: DayKey,
) -> Seq<Occurrence> {
    let expanded = if repeats {
        match expansion {
            Some(v) => Some(placed(v)),
            None => None,
        }
    } else {
        None
    };
    shown_occurrences(expanded, master, start, end)
}

/// The placements an expansion holds, when there is one.
pub open spec fn expansion_view(e: Option<Vec<Option<Occurrence>>>) -> Option<Seq<Option<Occurrence>>> {
    match e {
        Some(v) => Some(v@),
        None => None,
    }
}

/// Whether `e` is the entry of an event with `summary`, of a calendar with
/// `color`, occurring at `o`: on `o`'s day, and at `o`'s time unless the
/// event lasts all day.
pub open spec fn entry_for(e: (DayKey, EventInfo), o: Occurrence, all_day: bool, summary: Seq<char>, color: Seq<char>) -> bool {
    &&& e.0 == o.0
    &&& e.1.all_day == all_day
    &&& e.1.time == (if all_day { None } else { o.1 })
    &&& e.1.summary@ == summary
    &&& e.1.color@ == color
}

/// The entries one event adds to a grid from `start` to `end`, from its
/// `summary`, its local start `master` (all day when that has no time),
/// whether it repeats, the local placements of its expanded occurrences
/// (`None` for an instant that could not be placed; the whole expansion
/// `None` when its rules did not parse), and its calendar's `color`.
pub fn event_entries(
    summary: &str,
    master: Occurrence,
    repeats: bool,
    expansion: Option<Vec<Option<Occurrence>>>,
    color: &str,
    start: DayKey,
    end: DayKey,
) -> (r: Vec<(DayKey, EventInfo)>)
    ensures
        r@.len() == event_shown(
            master,
            repeats,
            expansion_view(expansion),
            start,
            end,
        ).len(),
        forall|i: int|
            0 <= i < r@.len() ==> entry_for(
                #[trigger] r@[i],
                event_shown(
                    master,
                    repeats,
                    expansion_view(expansion),
                    start,
                    end,
                )[i],
                master.1 is None,
                summary@,
                color@,
            ),
{
    let ghost ev = expansion_view(expansion);
    let expanded: Option<Vec<Occurrence>> = if repeats {
        match expansion {
            Some(v) => {
                let mut out: Vec<Occurrence> = Vec::new();
                let mut i: usize = 0;
                assert(v@.take(0) =~= Seq::<Option<Occurrence>>::empty());
                while i < v.len()
                    invariant
                        i <= v@.len(),
                        out@ == placed(v@.take(i as int)),
                    decreases v@.len() - i,
                {
                    assert(v@.take(i + 1).drop_last() =~= v@.take(i as int));
                    assert(v@.take(i + 1).last() == v@[i as int]);
                    match v[i] {
                        Some(o) => out.push(o),
                        None => {},
                    }
                    i += 1;
                }
                assert(v@.take(i as int) =~= v@);
                Some(out)
            },
            None => None,
        }
    } else {
        None
    };
    let occurrences = event_occurrences(expanded, master, start, end);
    let ghost shown = event_shown(master, repeats, ev, start, end);
    assert(occurrences@ == shown);
    let all_day = master.1.is_none();
    let mut r: Vec<(DayKey, EventInfo)> = Vec::new();
    let mut k: usize = 0;
    while k < occurrences.len()
        invariant
            k <= occurrences@.len(),
            occurrences@ == shown,
            all_day == master.1 is None,
            r@.len() == k,
            forall|i: int| 0 <= i < k ==> entry_for(#[trigger] r@[i], shown[i], all_day, summary@, color@),
        decreases occurrences@.len() - k,
    {
        let (day, time) = occurrences[k];
        let info = EventInfo {
            all_day,
            time: if all_day {
                None
            } else {
                time
            },
            summary: string_of(&chars_of(summary)),
            color: string_of(&chars_of(color)),
        };
        r.push((day, info));
        k += 1;
    }
    r
}

/// The entries one `VEVENT` text `ics` of a calendar with `color` adds to
/// a grid from the local day `start` to `end`, whose bounds as instants
/// are `start_utc` and `end_utc` (seconds since the Unix epoch). An event
/// without a readable start adds nothing, and so does one whose start does
/// not exist in the machine's time zone; one with an `RRULE` shows the
/// occurrences its rules give in that range, or its first occurrence when
/// they do not parse. The result is exactly what `event_entries` gives for
/// the event's summary, its local start and its expansion; where a timed
/// start and the expanded instants fall locally is the machine's time zone
/// to say, within the offsets `start_placement` states, and a floating
/// start keeps its own day and time.
pub fn calendar_event_entries(
    ics: &str,
    color: &str,
    start_utc: i64,
    end_utc: i64,
    start: DayKey,
    end: DayKey,
) -> (r: Vec<(DayKey, EventInfo)>)
    ensures
        match summary_and_start(unfolded(ics@)) {
            None => r@.len() == 0,
            Some((summary, st)) => {
                &&& forall|i: int|
                    0 <= i < r@.len() ==> (#[trigger] r@[i]).1.summary@ == summary && r@[i].1.color@ == color@
                        && r@[i].1.all_day == (st is Date) && (r@[i].1.time is None <==> st is Date)
                &&& {
                    ||| (start_placement(st, None) && r@.len() == 0)
                    ||| exists|master: Occurrence, ex: Option<Seq<Option<Occurrence>>>|
                        #![trigger event_shown(master, has_rrule_spec(unfolded(ics@)), ex, start, end)]
                        start_placement(st, Some(master)) && placements_timed(ex) && entries_of(
                            r@,
                            event_shown(master, has_rrule_spec(unfolded(ics@)), ex, start, end),
                            master.1 is None,
                            summary,
                            color@,
                        )
                }
                &&& !has_rrule_spec(unfolded(ics@)) ==> match st {
                    StartSpec::Date(y, m, d) => {
                        let shown = shown_occurrences(None, ((y, m, d), None::<TimeOfDay>), start, end);
                        &&& r@.len() == shown.len()
                        &&& forall|i: int|
                            0 <= i < r@.len() ==> entry_for(#[trigger] r@[i], shown[i], true, summary, color@)
                    },
                    _ => true,
                }
            },
        },
{
    let u = unfold_ical_lines(ics);
    let (summary, dt) = match parse_summary_and_dtstart(u.as_str()) {
        Some(p) => p,
        None => {
            return Vec::new();
        },
    };
    let master = match local_start(&dt) {
        Some(m) => m,
        None => {
            return Vec::new();
        },
    };
    let repeats = has_rrule(u.as_str());
    let expansion: Option<Vec<Option<Occurrence>>> = if repeats {
        match expand_recurring(u.as_str(), start_utc, end_utc) {
            Some(instants) => {
                let mut placed_v: Vec<Option<Occurrence>> = Vec::new();
                let mut i: usize = 0;
                while i < instants.len()
                    invariant
                        i <= instants@.len(),
                        placed_v@.len() == i,
                        forall|j: int|
                            0 <= j < i ==> timed(#[trigger] placed_v@[j]),
                    decreases instants@.len() - i,
                {
                    placed_v.push(local_instant(instants[i]));
                    i += 1;
                }
                Some(placed_v)
            },
            None => None,
        }
    } else {
        None
    };
    let ghost ev = expansion_view(expansion);
    proof {
        if repeats {
            if let Some(v) = ev {
                lemma_placed_timed(v);
            }
        }
    }
    let r = event_entries(summary.as_str(), master, repeats, expansion, color, start, end);
    proof {
        assert(placements_timed(ev));
        let shown = event_shown(master, has_rrule_spec(unfolded(ics@)), ev, start, end);
        assert(entries_of(r@, shown, master.1 is None, summary@, color@));
    }
    r
}

/// Whether every placement of an expansion, when there is one, carries a
/// time of day.
pub open spec fn placements_timed(ex: Option<Seq<Option<Occurrence>>>) -> bool {
    match ex {
        Some(v) => forall|j: int| 0 <= j < v.len() ==> timed(#[trigger] v[j]),
        None => true,
    }
}

/// Whether `r` holds, in order, the entries of an event with `summary`, of
/// a calendar with `color`, at each occurrence of `shown`.
pub open spec fn entries_of(
    r: Seq<(DayKey, EventInfo)>,
    shown: Seq<Occurrence>,
    all_day: bool,
    summary: Seq<char>,
    color: Seq<char>,
) -> bool {
    r.len() == shown.len() && forall|i: int| 0 <= i < r.len() ==> entry_for(#[trigger] r[i], shown[i], all_day, summary, color)
}

/// Whether a placement, when there is one, carries a time of day.
pub open spec fn timed(o: Option<Occurrence>) -> bool {
    match o {
        Some(x) => x.1 is Some,
        None => true,
    }
}

/// Placed occurrences that each carry a time still each carry one.
proof fn lemma_placed_timed(v: Seq<Option<Occurrence>>)
    requires
        forall|j: int| 0 <= j < v.len() ==> timed(#[trigger] v[j]),
    ensures
        forall|j: int| 0 <= j < placed(v).len() ==> (#[trigger] placed(v)[j]).1 is Some,
    decreases v.len(),
{
    if v.len() > 0 {
        lemma_placed_timed(v.drop_last());
        assert forall|j: int| 0 <= j < v.len() - 1 implies timed(#[trigger] v.drop_last()[j]) by {
            assert(v.drop_last()[j] == v[j]);
        }
        lemma_placed_timed(v.drop_last());
    }
}


/// An event that does not repeat shows once, on its local day, exactly
/// when that day lies in the range.
pub proof fn lemma_single_event_shown_iff_in_range(
    master: Occurrence,
    ex: Option<Seq<Option<Occurrence>>>,
    start: DayKey,
    end: DayKey,
)
    ensures
        event_shown(master, false, ex, start, end) == (if day_le(start, master.0) && day_le(master.0, end) {
            seq![master]
        } else {
            Seq::<Occurrence>::empty()
        }),
{
}

/// The uids of the selection `selected`.
pub open spec fn selection_view(selected: Seq<String>) -> Seq<Seq<char>> {
    selected.map_values(|u: String| u@)
}

/// The entries of the calendars of `calendars` that are enabled and
/// selected in `selected`, in order.
pub open spec fn queried_entries(
    calendars: Seq<(CalendarSource, Vec<(DayKey, EventInfo)>)>,
    selected: Seq<Seq<char>>,
) -> Seq<(DayKey, EventInfo)>
    decreases calendars.len(),
{
    if calendars.len() == 0 {
        Seq::empty()
    } else {
        let prev = queried_entries(calendars.drop_last(), selected);
        let c = calendars.last();
        if c.0.enabled && selected.contains(c.0.uid@) {
            prev + c.1@
        } else {
            prev
        }
    }
}

/// The month's events by day, from each calendar with its entries: only
/// the calendars that are enabled and among `selected` count, and their
/// entries are grouped by day (days in order of first appearance) and
/// sorted by time within a day, as `group_by_day` does.
pub fn month_entries(calendars: Vec<(CalendarSource, Vec<(DayKey, EventInfo)>)>, selected: &Vec<String>) -> (r: Vec<
    (DayKey, Vec<EventInfo>),
>)
    ensures
        r@.len() == distinct_days(queried_entries(calendars@, selection_view(selected@))).len(),
        forall|j: int|
            0 <= j < r@.len() ==> (#[trigger] r@[j]).0 == distinct_days(
                queried_entries(calendars@, selection_view(selected@)),
            )[j] && r@[j].1@ == crate::ordering::sort_by_key(
                events_on(queried_entries(calendars@, selection_view(selected@)), r@[j].0),
            ),
{
    let ghost orig = calendars@;
    let ghost sel = selection_view(selected@);
    let mut cals = calendars;
    let count: usize = cals.len();
    assert(orig.len() == count);
    let mut all: Vec<(DayKey, EventInfo)> = Vec::new();
    let mut k: usize = 0;
    assert(orig.take(0) =~= Seq::<(CalendarSource, Vec<(DayKey, EventInfo)>)>::empty());
    assert(orig.skip(0) =~= orig);
    while cals.len() > 0
        invariant
            k <= orig.len() <= usize::MAX,
            sel == selection_view(selected@),
            cals@ == orig.skip(k as int),
            all@ == queried_entries(orig.take(k as int), sel),
        decreases cals@.len(),
    {
        assert(orig.take(k + 1).drop_last() =~= orig.take(k as int));
        assert(orig.take(k + 1).last() == orig[k as int]);
        let (source, mut entries) = cals.remove(0);
        assert(cals@ =~= orig.skip(k + 1));
        if is_queried(&source, selected) {
            all.append(&mut entries);
        }
        k += 1;
    }
    assert(orig.take(k as int) =~= orig);
    group_by_day(all)
}

} // verus!
