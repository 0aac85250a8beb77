//! The system figures shown by the system-info widget, computed from the
//! text of the kernel's `/proc` files and from `statvfs` figures.
use vstd::prelude::*;

use crate::text::{
    named_segment_chars, named_segments, chars_of, decimal, lines, lines_of, push_decimal, push_str, parse_u64, parse_u64_chars, split_by, split_chars, split_once, split_once_chars, string_of, strip_prefix,
    strip_prefix_chars, text_equals, trim_by, trim_chars, views, words, words_of, Sep,
};

verus! {

/// The characters of `s`, or none when `s` is `None`.
fn opt_chars(s: Option<&str>) -> (out: Option<Vec<char>>)
    ensures
        match s {
            Some(t) => out matches Some(v) && v@ == t@,
            None => out is None,
        },
{
    match s {
        Some(t) => Some(chars_of(t)),
        None => None,
    }
}

pub open spec fn opt_view(s: Option<&str>) -> Option<Seq<char>> {
    match s {
        Some(t) => Some(t@),
        None => None,
    }
}

/// A file's text trimmed, or empty when the file could not be read.
pub open spec fn trimmed_or_empty(s: Option<Seq<char>>) -> Seq<char> {
    match s {
        Some(t) => trim_by(t, Sep::Whitespace),
        None => Seq::empty(),
    }
}

/// The machine's hostname from the text of `/proc/sys/kernel/hostname`
/// (`None` when it could not be read): the text trimmed, or empty.
pub fn read_hostname(file_text: Option<&str>) -> (r: String)
    ensures
        r@ == trimmed_or_empty(opt_view(file_text)),
{
    match opt_chars(file_text) {
        Some(cs) => string_of(&trim_chars(&cs, Sep::Whitespace)),
        None => String::new(),
    }
}

/// The kernel release from the text of `/proc/sys/kernel/osrelease`
/// (`None` when it could not be read): the text trimmed, or empty.
pub fn read_kernel_release(file_text: Option<&str>) -> (r: String)
    ensures
        r@ == trimmed_or_empty(opt_view(file_text)),
{
    match opt_chars(file_text) {
        Some(cs) => string_of(&trim_chars(&cs, Sep::Whitespace)),
        None => String::new(),
    }
}

/// A value of `/etc/os-release` without surrounding whitespace and quotes.
pub open spec fn unquoted(v: Seq<char>) -> Seq<char> {
    trim_by(trim_by(v, Sep::Whitespace), Sep::Char('"'))
}

fn unquote_chars(v: &Vec<char>) -> (out: Vec<char>)
    ensures
        out@ == unquoted(v@),
{
    let t = trim_chars(v, Sep::Whitespace);
    trim_chars(&t, Sep::Char('"'))
}

/// `value` without surrounding whitespace, then without surrounding `"`.
pub fn unquote(value: &str) -> (r: String)
    ensures
        r@ == unquoted(value@),
{
    string_of(&unquote_chars(&chars_of(value)))
}

/// The unquoted value of the last line of `ls` that starts with `prefix`.
pub open spec fn last_prefixed_value(ls: Seq<Seq<char>>, prefix: Seq<char>) -> Option<Seq<char>>
    decreases ls.len(),
{
    if ls.len() == 0 {
        None
    } else {
        match strip_prefix(ls.last(), prefix) {
            Some(v) => Some(unquoted(v)),
            None => last_prefixed_value(ls.drop_last(), prefix),
        }
    }
}

fn find_last_prefixed(ls: &Vec<Vec<char>>, prefix: &str) -> (r: Option<Vec<char>>)
    ensures
        match r {
            Some(v) => last_prefixed_value(views(ls@), prefix@) == Some(v@),
            None => last_prefixed_value(views(ls@), prefix@) is None,
        },
{
    let mut i = ls.len();
    assert(views(ls@).take(ls@.len() as int) =~= views(ls@));
    while i > 0
        invariant
            i <= ls@.len(),
            last_prefixed_value(views(ls@), prefix@) == last_prefixed_value(views(ls@).take(i as int), prefix@),
        decreases i,
    {
        let ghost t = views(ls@).take(i as int);
        assert(t.last() == ls@[i - 1]@);
        assert(t.drop_last() =~= views(ls@).take(i - 1));
        match strip_prefix_chars(&ls[i - 1], prefix) {
            Some(v) => {
                return Some(unquote_chars(&v));
            },
            None => {},
        }
        i -= 1;
    }
    assert(views(ls@).take(0) =~= Seq::<Seq<char>>::empty());
    None
}

pub open spec fn os_pretty_name(content: Option<Seq<char>>) -> Seq<char> {
    match content {
        None => Seq::empty(),
        Some(c) => match last_prefixed_value(lines(c), "PRETTY_NAME="@) {
            Some(v) => v,
            None => match last_prefixed_value(lines(c), "NAME="@) {
                Some(v) => v,
                None => Seq::empty(),
            },
        },
    }
}

/// The distribution's display name from the text of `/etc/os-release`
/// (`None` when it could not be read): the last `PRETTY_NAME`, else the
/// last `NAME`, unquoted, else empty.
pub fn read_os_pretty_name(content: Option<&str>) -> (r: String)
    ensures
        r@ == os_pretty_name(opt_view(content)),
{
    match opt_chars(content) {
        None => String::new(),
        Some(cs) => {
            let ls = lines_of(&cs);
            match find_last_prefixed(&ls, "PRETTY_NAME=") {
                Some(v) => string_of(&v),
                None => match find_last_prefixed(&ls, "NAME=") {
                    Some(v) => string_of(&v),
                    None => String::new(),
                },
            }
        },
    }
}

/// The segments of a path that name something: neither empty nor `.`.
/// The final component of a path, as `Path::file_name` gives it: `None`
/// when the path has no named component or ends in `..`.
pub open spec fn file_name(p: Seq<char>) -> Option<Seq<char>> {
    let n = named_segments(p);
    if n.len() == 0 || n.last() == ".."@ {
        None
    } else {
        Some(n.last())
    }
}

fn is_dot_dot(v: &Vec<char>) -> (b: bool)
    ensures
        b == (v@ == ".."@),
{
    text_equals("..", v)
}

/// The final component of the path `p`.
pub fn file_name_chars(p: &Vec<char>) -> (r: Option<Vec<char>>)
    ensures
        match r {
            Some(v) => file_name(p@) == Some(v@),
            None => file_name(p@) is None,
        },
{
    let mut kept = named_segment_chars(p);
    match kept.pop() {
        None => None,
        Some(last) => {
            if is_dot_dot(&last) {
                None
            } else {
                Some(last)
            }
        },
    }
}

pub open spec fn shell_name(shell: Option<Seq<char>>) -> Seq<char> {
    match shell {
        Some(p) => match file_name(p) {
            Some(n) => n,
            None => Seq::empty(),
        },
        None => Seq::empty(),
    }
}

/// The login shell's bare file name from the value of `$SHELL` (`None`
/// when unset), or empty.
pub fn read_shell_name(shell: Option<&str>) -> (r: String)
    ensures
        r@ == shell_name(opt_view(shell)),
{
    match opt_chars(shell) {
        Some(cs) => match file_name_chars(&cs) {
            Some(n) => string_of(&n),
            None => String::new(),
        },
        None => String::new(),
    }
}

/// The value of the first line of `ls` that starts with `model name` and
/// holds a `:`, trimmed.
pub open spec fn first_model_name(ls: Seq<Seq<char>>) -> Option<Seq<char>>
    decreases ls.len(),
{
    if ls.len() == 0 {
        None
    } else {
        match strip_prefix(ls[0], "model name"@) {
            Some(rest) => match split_once(rest, ':') {
                Some(kv) => Some(trim_by(kv.1, Sep::Whitespace)),
                None => first_model_name(ls.skip(1)),
            },
            None => first_model_name(ls.skip(1)),
        }
    }
}

pub open spec fn cpu_model(content: Option<Seq<char>>) -> Seq<char> {
    match content {
        Some(c) => match first_model_name(lines(c)) {
            Some(m) => m,
            None => Seq::empty(),
        },
        None => Seq::empty(),
    }
}

/// The CPU model from the text of `/proc/cpuinfo` (`None` when it could not
/// be read): the value of the first `model name` line, or empty.
pub fn read_cpu_model(content: Option<&str>) -> (r: String)
    ensures
        r@ == cpu_model(opt_view(content)),
{
    let cs = match opt_chars(content) {
        Some(cs) => cs,
        None => {
            return String::new();
        },
    };
    let ls = lines_of(&cs);
    let mut i: usize = 0;
    assert(views(ls@).skip(0) =~= views(ls@));
    while i < ls.len()
        invariant
            i <= ls@.len(),
            views(ls@) == lines(cs@),
            opt_view(content) == Some(cs@),
            first_model_name(views(ls@)) == first_model_name(views(ls@).skip(i as int)),
        decreases ls@.len() - i,
    {
        let ghost t = views(ls@).skip(i as int);
        assert(t[0] == ls@[i as int]@);
        assert(t.skip(1) =~= views(ls@).skip(i + 1));
        match strip_prefix_chars(&ls[i], "model name") {
            Some(rest) => match split_once_chars(&rest, ':') {
                Some(kv) => {
                    assert(first_model_name(t) == Some(trim_by(kv.1@, Sep::Whitespace)));
                    return string_of(&trim_chars(&kv.1, Sep::Whitespace));
                },
                None => {},
            },
            None => {},
        }
        i += 1;
    }
    String::new()
}

} // verus!

verus! {

/// One sample of the aggregate CPU line of `/proc/stat`: jiffies spent
/// idle (idle plus iowait) and jiffies spent overall, both cumulative since
/// boot.
#[derive(Debug, Clone, Copy, PartialEq, Eq, Structural)]
pub struct CpuTimes {
    pub idle: u64,
    pub total: u64,
}

impl CpuTimes {
    /// The idle and overall jiffies elapsed since the earlier sample
    /// `previous`, each zero where its counter did not advance (the
    /// machine's usage over the interval is one minus their ratio).
    pub fn interval_since(&self, previous: &CpuTimes) -> (r: (u64, u64))
        ensures
            r.0 == (if self.idle >= previous.idle {
                (self.idle - previous.idle) as u64
            } else {
                0
            }),
            r.1 == (if self.total >= previous.total {
                (self.total - previous.total) as u64
            } else {
                0
            }),
    {
        (self.idle.saturating_sub(previous.idle), self.total.saturating_sub(previous.total))
    }
}

/// The values of `ws` that parse as `u64`, in order; the others are
/// skipped.
pub open spec fn parsed_numbers(ws: Seq<Seq<char>>) -> Seq<u64>
    decreases ws.len(),
{
    if ws.len() == 0 {
        Seq::empty()
    } else {
        let p = parsed_numbers(ws.drop_last());
        match parse_u64(ws.last()) {
            Some(v) => p.push(v),
            None => p,
        }
    }
}

/// The counters of the first line of `/proc/stat` when it is the
/// aggregate `cpu` line.
pub open spec fn cpu_counters_of(content: Seq<char>) -> Option<Seq<u64>> {
    let ls = lines(content);
    if ls.len() == 0 {
        None
    } else {
        let ws = words(ls[0]);
        if ws.len() == 0 || ws[0] != "cpu"@ {
            None
        } else {
            Some(parsed_numbers(ws.skip(1)))
        }
    }
}

pub open spec fn seq_sum(v: Seq<u64>) -> int
    decreases v.len(),
{
    if v.len() == 0 {
        0
    } else {
        seq_sum(v.drop_last()) + v.last()
    }
}

/// `(idle, total)` for the counters `v`: idle is the fourth counter plus
/// the fifth (iowait) when present, total the sum of all; `None` with
/// fewer than four counters.
pub open spec fn cpu_times_of(v: Seq<u64>) -> Option<(int, int)> {
    if v.len() < 4 {
        None
    } else {
        Some((v[3] + (if v.len() > 4 {
            v[4] as int
        } else {
            0
        }), seq_sum(v)))
    }
}

/// The numeric counters of the aggregate `cpu` line that starts the text of
/// `/proc/stat`; `None` when the text does not start with such a line.
pub fn cpu_counters(content: &str) -> (r: Option<Vec<u64>>)
    ensures
        match r {
            Some(v) => cpu_counters_of(content@) == Some(v@),
            None => cpu_counters_of(content@) is None,
        },
{
    let cs = chars_of(content);
    let ls = lines_of(&cs);
    if ls.len() == 0 {
        return None;
    }
    let ws = words_of(&ls[0]);
    assert(views(ls@)[0] == ls@[0]@);
    if ws.len() == 0 || !text_equals("cpu", &ws[0]) {
        assert(ws.len() > 0 ==> views(ws@)[0] == ws@[0]@);
        return None;
    }
    let ghost w = views(ws@);
    let mut values: Vec<u64> = Vec::new();
    let mut i: usize = 1;
    assert(w.skip(1).take(0) =~= Seq::<Seq<char>>::empty());
    while i < ws.len()
        invariant
            1 <= i <= ws@.len(),
            w == views(ws@),
            values@ == parsed_numbers(w.skip(1).take(i - 1)),
        decreases ws@.len() - i,
    {
        let ghost t = w.skip(1).take(i as int);
        assert(t.drop_last() =~= w.skip(1).take(i - 1));
        assert(t.last() == ws@[i as int]@);
        let parsed = parse_u64_chars(&ws[i]);
        match parsed {
            Some(v) => values.push(v),
            None => {},
        }
        i += 1;
    }
    assert(w.skip(1).take(i - 1) =~= w.skip(1));
    assert(views(ws@)[0] == ws@[0]@);
    Some(values)
}

proof fn lemma_seq_sum_bounds(v: Seq<u64>, i: int)
    requires
        0 <= i <= v.len(),
    ensures
        seq_sum(v.take(i)) <= seq_sum(v),
        0 <= seq_sum(v.take(i)),
    decreases v.len() - i,
{
    if i < v.len() {
        lemma_seq_sum_bounds(v, i + 1);
        assert(v.take(i + 1).drop_last() =~= v.take(i));
    } else {
        assert(v.take(i) =~= v);
    }
    lemma_seq_sum_nonneg(v.take(i));
}

proof fn lemma_seq_sum_nonneg(v: Seq<u64>)
    ensures
        0 <= seq_sum(v),
    decreases v.len(),
{
    if v.len() > 0 {
        lemma_seq_sum_nonneg(v.drop_last());
    }
}

proof fn lemma_seq_sum_covers(v: Seq<u64>, a: int, b: int)
    requires
        0 <= a < b < v.len(),
    ensures
        v[a] + v[b] <= seq_sum(v),
    decreases v.len(),
{
    lemma_seq_sum_nonneg(v.drop_last());
    if b < v.len() - 1 {
        lemma_seq_sum_covers(v.drop_last(), a, b);
    } else {
        lemma_seq_sum_elem(v.drop_last(), a);
    }
}

proof fn lemma_seq_sum_elem(v: Seq<u64>, a: int)
    requires
        0 <= a < v.len(),
    ensures
        v[a] <= seq_sum(v),
    decreases v.len(),
{
    lemma_seq_sum_nonneg(v.drop_last());
    if a < v.len() - 1 {
        lemma_seq_sum_elem(v.drop_last(), a);
    }
}

/// `(idle, total)` of the counters `values`, whose sum fits in a `u64`.
pub fn cpu_times_from_counters(values: &Vec<u64>) -> (r: Option<CpuTimes>)
    requires
        seq_sum(values@) <= u64::MAX,
    ensures
        match r {
            Some(t) => cpu_times_of(values@) == Some((t.idle as int, t.total as int)),
            None => cpu_times_of(values@) is None,
        },
{
    if values.len() < 4 {
        return None;
    }
    let mut total: u64 = 0;
    let mut i: usize = 0;
    while i < values.len()
        invariant
            i <= values@.len(),
            seq_sum(values@) <= u64::MAX,
            total == seq_sum(values@.take(i as int)),
        decreases values@.len() - i,
    {
        proof {
            lemma_seq_sum_bounds(values@, i + 1);
            assert(values@.take(i + 1).drop_last() =~= values@.take(i as int));
        }
        total = total + values[i];
        i += 1;
    }
    assert(values@.take(i as int) =~= values@);
    let idle = if values.len() > 4 {
        proof {
            lemma_seq_sum_covers(values@, 3, 4);
        }
        values[3] + values[4]
    } else {
        values[3]
    };
    Some(CpuTimes { idle, total })
}

/// The current aggregate CPU sample from the text of `/proc/stat`: the
/// first line must be the `cpu` line with at least four numeric counters.
/// The counters' sum must fit in a `u64`.
pub fn read_cpu_times(content: &str) -> (r: Option<CpuTimes>)
    requires
        match cpu_counters_of(content@) {
            Some(v) => seq_sum(v) <= u64::MAX,
            None => true,
        },
    ensures
        match r {
            Some(t) => exists|v: Seq<u64>|
                cpu_counters_of(content@) == Some(v) && #[trigger] cpu_times_of(v) == Some(
                    (t.idle as int, t.total as int),
                ),
            None => match cpu_counters_of(content@) {
                Some(v) => cpu_times_of(v) is None,
                None => true,
            },
        },
{
    match cpu_counters(content) {
        Some(values) => cpu_times_from_counters(&values),
        None => None,
    }
}

/// `/proc/meminfo`'s two totals, in kiB.
#[derive(Debug, Clone, Copy, PartialEq, Eq, Structural)]
pub struct MemoryInfo {
    pub total_kib: u64,
    pub available_kib: u64,
}

impl MemoryInfo {
    /// Memory in use: total minus available, never below zero.
    pub fn used_kib(&self) -> (r: u64)
        ensures
            r == (if self.total_kib >= self.available_kib {
                self.total_kib - self.available_kib
            } else {
                0
            }),
    {
        if self.total_kib >= self.available_kib {
            self.total_kib - self.available_kib
        } else {
            0
        }
    }
}

/// The first word of `rest` parsed as a `u64`.
pub open spec fn first_word_value(rest: Seq<char>) -> Option<u64> {
    let w = words(rest);
    if w.len() == 0 {
        None
    } else {
        parse_u64(w[0])
    }
}

/// One line's effect on the `MemTotal` / `MemAvailable` figures found so
/// far.
pub open spec fn mem_step(line: Seq<char>, t: Option<u64>, a: Option<u64>) -> (Option<u64>, Option<u64>) {
    match strip_prefix(line, "MemTotal:"@) {
        Some(r) => (first_word_value(r), a),
        None => match strip_prefix(line, "MemAvailable:"@) {
            Some(r) => (t, first_word_value(r)),
            None => (t, a),
        },
    }
}

/// The figures after scanning `ls`, stopping as soon as both are known.
pub open spec fn mem_scan(ls: Seq<Seq<char>>, t: Option<u64>, a: Option<u64>) -> (Option<u64>, Option<u64>)
    decreases ls.len(),
{
    if ls.len() == 0 {
        (t, a)
    } else {
        let s = mem_step(ls[0], t, a);
        if s.0 is Some && s.1 is Some {
            s
        } else {
            mem_scan(ls.skip(1), s.0, s.1)
        }
    }
}

fn first_word_value_chars(rest: &Vec<char>) -> (r: Option<u64>)
    ensures
        r == first_word_value(rest@),
{
    let w = words_of(rest);
    if w.len() == 0 {
        None
    } else {
        assert(views(w@)[0] == w@[0]@);
        parse_u64_chars(&w[0])
    }
}

/// `MemTotal` and `MemAvailable` from the text of `/proc/meminfo`; `None`
/// unless both are found with a numeric value.
pub fn read_memory(content: &str) -> (r: Option<MemoryInfo>)
    ensures
        match r {
            Some(m) => mem_scan(lines(content@), None, None) == (Some(m.total_kib), Some(m.available_kib)),
            None => !(mem_scan(lines(content@), None, None).0 is Some && mem_scan(
                lines(content@),
                None,
                None,
            ).1 is Some),
        },
{
    let cs = chars_of(content);
    let ls = lines_of(&cs);
    let mut total: Option<u64> = None;
    let mut available: Option<u64> = None;
    let mut i: usize = 0;
    assert(views(ls@).skip(0) =~= views(ls@));
    while i < ls.len() && !(total.is_some() && available.is_some())
        invariant
            i <= ls@.len(),
            views(ls@) == lines(content@),
            if total is Some && available is Some {
                mem_scan(views(ls@), None, None) == (total, available)
            } else {
                mem_scan(views(ls@), None, None) == mem_scan(views(ls@).skip(i as int), total, available)
            },
        decreases ls@.len() - i,
    {
        let ghost t = views(ls@).skip(i as int);
        assert(t[0] == ls@[i as int]@);
        assert(t.skip(1) =~= views(ls@).skip(i + 1));
        match strip_prefix_chars(&ls[i], "MemTotal:") {
            Some(rest) => {
                total = first_word_value_chars(&rest);
            },
            None => match strip_prefix_chars(&ls[i], "MemAvailable:") {
                Some(rest) => {
                    available = first_word_value_chars(&rest);
                },
                None => {},
            },
        }
        i += 1;
    }
    assert(!(total is Some && available is Some) ==> views(ls@).skip(i as int).len() == 0);
    match (total, available) {
        (Some(t), Some(a)) => Some(MemoryInfo { total_kib: t, available_kib: a }),
        _ => None,
    }
}

/// Bytes total and used on a filesystem.
#[derive(Debug, Clone, Copy, PartialEq, Eq, Structural)]
pub struct DiskUsage {
    pub total_bytes: u64,
    pub used_bytes: u64,
}

/// Total and used bytes from the `statvfs` figures of a filesystem: total
/// is all blocks, used the blocks not free (root-reserved ones count as
/// used, as `df` shows them), both times the fragment size.
pub fn read_disk_usage(f_blocks: u64, f_bfree: u64, f_frsize: u64) -> (d: DiskUsage)
    requires
        f_blocks * f_frsize <= u64::MAX,
        f_bfree * f_frsize <= u64::MAX,
    ensures
        d.total_bytes == f_blocks * f_frsize,
        d.used_bytes == (if f_blocks * f_frsize >= f_bfree * f_frsize {
            f_blocks * f_frsize - f_bfree * f_frsize
        } else {
            0
        }),
{
    let total_bytes = f_blocks * f_frsize;
    let free_bytes = f_bfree * f_frsize;
    let used_bytes = if total_bytes >= free_bytes {
        total_bytes - free_bytes
    } else {
        0
    };
    DiskUsage { total_bytes, used_bytes }
}

} // verus!

verus! {

/// The two most significant units of an uptime: days and hours from one
/// day on, hours and minutes from one hour on, else minutes alone.
pub open spec fn uptime_text(s: nat, unit_day: Seq<char>, unit_hour: Seq<char>, unit_minute: Seq<char>) -> Seq<char> {
    let days = s / 86400;
    let hours = (s % 86400) / 3600;
    let minutes = (s % 3600) / 60;
    if days > 0 {
        decimal(days) + " "@ + unit_day + " "@ + decimal(hours) + " "@ + unit_hour
    } else if hours > 0 {
        decimal(hours) + " "@ + unit_hour + " "@ + decimal(minutes) + " "@ + unit_minute
    } else {
        decimal(minutes) + " "@ + unit_minute
    }
}

/// Formats whole seconds since boot as e.g. `3 j 4 h`, `4 h 12 min` or
/// `12 min`, with the given (translated) unit abbreviations.
pub fn format_uptime(total_seconds: u64, unit_day: &str, unit_hour: &str, unit_minute: &str) -> (r: String)
    ensures
        r@ == uptime_text(total_seconds as nat, unit_day@, unit_hour@, unit_minute@),
{
    let days = total_seconds / 86400;
    let hours = (total_seconds % 86400) / 3600;
    let minutes = (total_seconds % 3600) / 60;
    let mut v: Vec<char> = Vec::new();
    if days > 0 {
        push_decimal(&mut v, days);
        v.push(' ');
        push_str(&mut v, unit_day);
        v.push(' ');
        push_decimal(&mut v, hours);
        v.push(' ');
        push_str(&mut v, unit_hour);
    } else if hours > 0 {
        push_decimal(&mut v, hours);
        v.push(' ');
        push_str(&mut v, unit_hour);
        v.push(' ');
        push_decimal(&mut v, minutes);
        v.push(' ');
        push_str(&mut v, unit_minute);
    } else {
        push_decimal(&mut v, minutes);
        v.push(' ');
        push_str(&mut v, unit_minute);
    }
    proof {
        reveal_strlit(" ");
        assert(v@ =~= uptime_text(total_seconds as nat, unit_day@, unit_hour@, unit_minute@));
    }
    string_of(&v)
}

/// The mount point the disk gauge reads: the entered text trimmed, or `/`
/// when that leaves nothing.
pub fn effective_disk_path(path: &str) -> (r: String)
    ensures
        r@ == (if trim_by(path@, Sep::Whitespace).len() == 0 {
            "/"@
        } else {
            trim_by(path@, Sep::Whitespace)
        }),
{
    let t = trim_chars(&chars_of(path), Sep::Whitespace);
    if t.len() == 0 {
        "/".to_string()
    } else {
        string_of(&t)
    }
}


/// The units an uptime is shown in recompose it: from one day on, `d` days
/// and `h < 24` hours with the uptime in that very hour; from one hour on,
/// `h` hours and `m < 60` minutes with the uptime in that very minute;
/// below an hour, `m` minutes with the uptime in that very minute.
pub proof fn lemma_uptime_recomposes(s: nat, unit_day: Seq<char>, unit_hour: Seq<char>, unit_minute: Seq<char>)
    ensures
        s >= 86400 ==> exists|d: nat, h: nat|
            #![trigger decimal(d), decimal(h)]
            d >= 1 && h < 24 && d * 86400 + h * 3600 <= s < d * 86400 + h * 3600 + 3600 && uptime_text(
                s,
                unit_day,
                unit_hour,
                unit_minute,
            ) == decimal(d) + " "@ + unit_day + " "@ + decimal(h) + " "@ + unit_hour,
        3600 <= s < 86400 ==> exists|h: nat, m: nat|
            #![trigger decimal(h), decimal(m)]
            1 <= h < 24 && m < 60 && h * 3600 + m * 60 <= s < h * 3600 + m * 60 + 60 && uptime_text(
                s,
                unit_day,
                unit_hour,
                unit_minute,
            ) == decimal(h) + " "@ + unit_hour + " "@ + decimal(m) + " "@ + unit_minute,
        s < 3600 ==> exists|m: nat|
            #![trigger decimal(m)]
            m < 60 && m * 60 <= s < m * 60 + 60 && uptime_text(s, unit_day, unit_hour, unit_minute) == decimal(m)
                + " "@ + unit_minute,
{
    let d = s / 86400;
    let r = s % 86400;
    let h = r / 3600;
    let m = (s % 3600) / 60;
    assert(d * 86400 + r == s && r < 86400) by {
        vstd::arithmetic::div_mod::lemma_fundamental_div_mod(s as int, 86400);
        vstd::arithmetic::div_mod::lemma_mod_pos_bound(s as int, 86400);
        assert(d * 86400 == 86400 * d) by (nonlinear_arith);
    }
    assert(h * 3600 <= r < h * 3600 + 3600 && h < 24) by (nonlinear_arith)
        requires
            h == r / 3600,
            0 <= r < 86400,
    ;
    assert(s % 3600 == r - h * 3600) by (nonlinear_arith)
        requires
            d * 86400 + r == s,
            h * 3600 <= r < h * 3600 + 3600,
            d >= 0,
    {
        assert(s == (d * 24 + h) * 3600 + (r - h * 3600));
        vstd::arithmetic::div_mod::lemma_fundamental_div_mod_converse(
            s as int,
            3600,
            (d * 24 + h) as int,
            (r - h * 3600) as int,
        );
    }
    assert(m * 60 <= s % 3600 < m * 60 + 60 && m < 60) by (nonlinear_arith)
        requires
            m == (s % 3600) / 60,
            0 <= s % 3600 < 3600,
    ;
    if s >= 86400 {
        assert(d >= 1) by (nonlinear_arith)
            requires
                d * 86400 + r == s,
                r < 86400,
                s >= 86400,
        ;
        assert(uptime_text(s, unit_day, unit_hour, unit_minute) == decimal(d) + " "@ + unit_day + " "@ + decimal(
            h,
        ) + " "@ + unit_hour);
    } else if s >= 3600 {
        assert(d == 0) by (nonlinear_arith)
            requires
                d * 86400 + r == s,
                s < 86400,
                r >= 0,
        ;
        assert(h >= 1);
        assert(uptime_text(s, unit_day, unit_hour, unit_minute) == decimal(h) + " "@ + unit_hour + " "@ + decimal(
            m,
        ) + " "@ + unit_minute);
    } else {
        assert(d == 0) by (nonlinear_arith)
            requires
                d * 86400 + r == s,
                s < 3600,
                r >= 0,
        ;
        assert(h == 0);
        assert(s % 3600 == s);
        assert(uptime_text(s, unit_day, unit_hour, unit_minute) == decimal(m) + " "@ + unit_minute);
    }
}

} // verus!
