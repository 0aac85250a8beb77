//! Network interface figures read from the text of `/proc/net/dev` and
//! `/proc/net/route`, and the choices the network widgets make with them:
//! which interface to show, under which caption, and whether a VPN is up.
use vstd::prelude::*;

use crate::text::{
    chars_of, lines, lines_of, parse_u64, parse_u64_chars, split_once, split_once_chars, string_of, text_equals,
    trim_by, trim_chars, views, words, words_of, Sep,
};

verus! {

/// One interface's cumulative counters: `(name, bytes received, bytes sent)`.
pub type InterfaceCounters = (String, u64, u64);

/// The entry one line of `/proc/net/dev` describes: `<name>: <8 receive
/// fields> <8 transmit fields>`, with the bytes first in each group. `None`
/// for a line without `:`, with an empty name, for the loopback device, or
/// when either byte count is missing or not a number.
pub open spec fn net_dev_entry(line: Seq<char>) -> Option<(Seq<char>, u64, u64)> {
    match split_once(line, ':') {
        None => None,
        Some(kv) => {
            let name = trim_by(kv.0, Sep::Whitespace);
            let fields = words(kv.1);
            if name.len() == 0 || name == "lo"@ || fields.len() < 9 {
                None
            } else {
                match (parse_u64(fields[0]), parse_u64(fields[8])) {
                    (Some(rx), Some(tx)) => Some((name, rx, tx)),
                    _ => None,
                }
            }
        },
    }
}

/// `s` without its first `n` elements; empty when it has fewer.
pub open spec fn drop_first_n(s: Seq<Seq<char>>, n: int) -> Seq<Seq<char>> {
    if n <= s.len() {
        s.skip(n)
    } else {
        Seq::empty()
    }
}

/// The entries of `ls`, in order.
pub open spec fn net_dev_entries(ls: Seq<Seq<char>>) -> Seq<(Seq<char>, u64, u64)>
    decreases ls.len(),
{
    if ls.len() == 0 {
        Seq::empty()
    } else {
        let p = net_dev_entries(ls.drop_last());
        match net_dev_entry(ls.last()) {
            Some(e) => p.push(e),
            None => p,
        }
    }
}

pub open spec fn counters_view(v: Seq<InterfaceCounters>) -> Seq<(Seq<char>, u64, u64)> {
    v.map_values(|c: InterfaceCounters| (c.0@, c.1, c.2))
}

fn net_dev_entry_chars(line: &Vec<char>) -> (r: Option<InterfaceCounters>)
    ensures
        match r {
            Some(c) => net_dev_entry(line@) == Some((c.0@, c.1, c.2)),
            None => net_dev_entry(line@) is None,
        },
{
    let (head, rest) = match split_once_chars(line, ':') {
        Some(kv) => kv,
        None => {
            return None;
        },
    };
    let name = trim_chars(&head, Sep::Whitespace);
    let fields = words_of(&rest);
    if name.len() == 0 || text_equals("lo", &name) || fields.len() < 9 {
        return None;
    }
    assert(views(fields@)[0] == fields@[0]@);
    assert(views(fields@)[8] == fields@[8]@);
    match (parse_u64_chars(&fields[0]), parse_u64_chars(&fields[8])) {
        (Some(rx), Some(tx)) => Some((string_of(&name), rx, tx)),
        _ => None,
    }
}

/// Every interface listed in the text of `/proc/net/dev`, loopback
/// excluded: the two header lines are skipped, then each line that
/// describes an interface with numeric byte counts contributes one entry.
pub fn read_interfaces(contents: &str) -> (r: Vec<InterfaceCounters>)
    ensures
        counters_view(r@) == net_dev_entries(drop_first_n(lines(contents@), 2)),
{
    let cs = chars_of(contents);
    let ls = lines_of(&cs);
    let mut out: Vec<InterfaceCounters> = Vec::new();
    if ls.len() <= 2 {
        assert(ls@.len() == 2 ==> views(ls@).skip(2) =~= Seq::<Seq<char>>::empty());
        return out;
    }
    let ghost body = views(ls@).skip(2);
    let mut i: usize = 2;
    assert(body.take(0) =~= Seq::<Seq<char>>::empty());
    while i < ls.len()
        invariant
            2 <= i <= ls@.len(),
            body == views(ls@).skip(2),
            views(ls@) == lines(contents@),
            counters_view(out@) == net_dev_entries(body.take(i - 2)),
        decreases ls@.len() - i,
    {
        let ghost t = body.take(i - 1);
        assert(t.drop_last() =~= body.take(i - 2));
        assert(t.last() == ls@[i as int]@);
        let ghost before = counters_view(out@);
        match net_dev_entry_chars(&ls[i]) {
            Some(c) => {
                out.push(c);
                assert(counters_view(out@) =~= before.push((c.0@, c.1, c.2)));
            },
            None => {},
        }
        i += 1;
    }
    assert(body.take(i - 2) =~= body);
    out
}

/// The interface of the first line after the header of `/proc/net/route`
/// whose destination is `00000000`, the default route.
pub open spec fn first_default_route(ls: Seq<Seq<char>>) -> Option<Seq<char>>
    decreases ls.len(),
{
    if ls.len() == 0 {
        None
    } else {
        let f = words(ls[0]);
        if f.len() >= 2 && f[1] == "00000000"@ {
            Some(f[0])
        } else {
            first_default_route(ls.skip(1))
        }
    }
}

/// The interface that holds the default route, from the text of
/// `/proc/net/route`; the first one when several do.
pub fn default_interface(contents: &str) -> (r: Option<String>)
    ensures
        match r {
            Some(n) => first_default_route(drop_first_n(lines(contents@), 1)) == Some(n@),
            None => first_default_route(drop_first_n(lines(contents@), 1)) is None,
        },
{
    let cs = chars_of(contents);
    let ls = lines_of(&cs);
    if ls.len() == 0 {
        return None;
    }
    let ghost body = views(ls@).skip(1);
    let mut i: usize = 1;
    assert(body.skip(0) =~= body);
    while i < ls.len()
        invariant
            1 <= i <= ls@.len(),
            body == views(ls@).skip(1),
            views(ls@) == lines(contents@),
            first_default_route(body) == first_default_route(body.skip(i - 1)),
        decreases ls@.len() - i,
    {
        let ghost t = body.skip(i - 1);
        assert(t[0] == ls@[i as int]@);
        assert(t.skip(1) =~= body.skip(i as int));
        let f = words_of(&ls[i]);
        if f.len() >= 2 && text_equals("00000000", &f[1]) {
            assert(views(f@)[1] == f@[1]@);
            assert(views(f@)[0] == f@[0]@);
            return Some(string_of(&f[0]));
        }
        assert(f.len() >= 2 ==> views(f@)[1] == f@[1]@);
        i += 1;
    }
    None
}

/// Whether `s` starts with `p`.
pub open spec fn has_prefix(s: Seq<char>, p: Seq<char>) -> bool {
    p.len() <= s.len() && s.take(p.len() as int) == p
}

fn starts_with_text(s: &Vec<char>, p: &str) -> (b: bool)
    ensures
        b == has_prefix(s@, p@),
{
    let pc = chars_of(p);
    if pc.len() > s.len() {
        return false;
    }
    let mut i: usize = 0;
    while i < pc.len()
        invariant
            pc@ == p@,
            pc@.len() <= s@.len(),
            i <= pc@.len(),
            forall|j: int| 0 <= j < i ==> s@[j] == pc@[j],
        decreases pc@.len() - i,
    {
        if s[i] != pc[i] {
            assert(s@.take(p@.len() as int)[i as int] != p@[i as int]);
            return false;
        }
        i += 1;
    }
    assert(s@.take(p@.len() as int) =~= p@);
    true
}

/// An interface name that looks like a VPN tunnel: WireGuard (`wg`), TUN
/// (`tun`), TAP (`tap`) or PPP-based (`ppp`).
pub open spec fn vpn_like(name: Seq<char>) -> bool {
    has_prefix(name, "wg"@) || has_prefix(name, "tun"@) || has_prefix(name, "tap"@) || has_prefix(name, "ppp"@)
}

/// True if `name` looks like a VPN tunnel interface, by name prefix.
pub fn is_vpn_like(name: &str) -> (b: bool)
    ensures
        b == vpn_like(name@),
{
    let cs = chars_of(name);
    starts_with_text(&cs, "wg") || starts_with_text(&cs, "tun") || starts_with_text(&cs, "tap")
        || starts_with_text(&cs, "ppp")
}

/// True if any listed interface looks like a VPN tunnel.
pub fn vpn_active(interfaces: &[InterfaceCounters]) -> (b: bool)
    ensures
        b == exists|i: int| 0 <= i < interfaces@.len() && vpn_like(#[trigger] interfaces@[i].0@),
{
    let mut i: usize = 0;
    while i < interfaces.len()
        invariant
            i <= interfaces@.len(),
            forall|j: int| 0 <= j < i ==> !vpn_like(#[trigger] interfaces@[j].0@),
        decreases interfaces@.len() - i,
    {
        if is_vpn_like(interfaces[i].0.as_str()) {
            return true;
        }
        i += 1;
    }
    false
}

/// Which byte counter a network widget tracks.
#[derive(Debug, Clone, Copy, PartialEq, Eq, Structural)]
pub enum Direction {
    In,
    Out,
}

impl Direction {
    /// The name saved in a widget's settings.
    pub fn as_str(self) -> (s: &'static str)
        ensures
            s@ == (match self {
                Direction::In => "in"@,
                Direction::Out => "out"@,
            }),
    {
        match self {
            Direction::In => "in",
            Direction::Out => "out",
        }
    }

    /// `Out` for the saved name `out`, `In` for anything else.
    pub fn from_str(value: &str) -> (d: Direction)
        ensures
            d == (if value@ == "out"@ {
                Direction::Out
            } else {
                Direction::In
            }),
    {
        let cs = chars_of(value);
        if text_equals("out", &cs) {
            Direction::Out
        } else {
            Direction::In
        }
    }

    /// The arrow shown before the caption.
    pub fn arrow(self) -> (s: &'static str)
        ensures
            s@ == (match self {
                Direction::In => "↓"@,
                Direction::Out => "↑"@,
            }),
    {
        match self {
            Direction::In => "↓",
            Direction::Out => "↑",
        }
    }

    /// The arrow's color: blue for incoming, coral for outgoing.
    pub fn color_hex(self) -> (s: &'static str)
        ensures
            s@ == (match self {
                Direction::In => "#5da9e8"@,
                Direction::Out => "#e8875d"@,
            }),
    {
        match self {
            Direction::In => "#5da9e8",
            Direction::Out => "#e8875d",
        }
    }
}

pub open spec fn opt_text(s: Option<&str>) -> Option<Seq<char>> {
    match s {
        Some(t) => Some(t@),
        None => None,
    }
}

/// The interface a widget shows: the pinned one; else the default-route
/// interface when it is listed; else the first listed interface.
pub open spec fn effective_interface(
    pinned: Option<Seq<char>>,
    default_route: Option<Seq<char>>,
    names: Seq<Seq<char>>,
) -> Option<Seq<char>> {
    match pinned {
        Some(p) => Some(p),
        None => match default_route {
            Some(d) if names.contains(d) => Some(d),
            _ => if names.len() > 0 {
                Some(names[0])
            } else {
                None
            },
        },
    }
}

pub open spec fn interface_names(v: Seq<InterfaceCounters>) -> Seq<Seq<char>> {
    v.map_values(|c: InterfaceCounters| c.0@)
}

/// The interface name driving a network widget's display right now.
pub fn effective_interface_name(
    pinned: Option<&str>,
    default_route: Option<&str>,
    interfaces: &[InterfaceCounters],
) -> (r: Option<String>)
    ensures
        match r {
            Some(n) => effective_interface(opt_text(pinned), opt_text(default_route), interface_names(interfaces@))
                == Some(n@),
            None => effective_interface(opt_text(pinned), opt_text(default_route), interface_names(interfaces@))
                is None,
        },
{
    let ghost names = interface_names(interfaces@);
    if let Some(p) = pinned {
        return Some(p.to_string());
    }
    if let Some(d) = default_route {
        let dc = chars_of(d);
        let mut i: usize = 0;
        while i < interfaces.len()
            invariant
                i <= interfaces@.len(),
                dc@ == d@,
                pinned is None,
                default_route == Some(d),
                names == interface_names(interfaces@),
                forall|j: int| 0 <= j < i ==> names[j] != d@,
            decreases interfaces@.len() - i,
        {
            assert(names[i as int] == interfaces@[i as int].0@);
            if text_equals(interfaces[i].0.as_str(), &dc) {
                assert(names[i as int] == d@);
                assert(names.contains(d@));
                return Some(d.to_string());
            }
            i += 1;
        }
        assert(!names.contains(d@));
    }
    if interfaces.len() > 0 {
        assert(names[0] == interfaces@[0].0@);
        Some(interfaces[0].0.clone())
    } else {
        None
    }
}

/// The caption's name: while an interface is pinned, a non-empty custom
/// label wins over the interface name; otherwise the interface name; the
/// widget's generic title when no name is known at all.
pub open spec fn caption_name(
    pinned: bool,
    custom_label: Option<Seq<char>>,
    effective_name: Option<Seq<char>>,
    title: Seq<char>,
) -> Seq<char> {
    match custom_label {
        Some(c) if pinned && c.len() > 0 => c,
        _ => match effective_name {
            Some(n) => n,
            None => title,
        },
    }
}

/// The caption's name portion for the interface `effective_name`.
pub fn display_label(pinned: bool, custom_label: Option<&str>, effective_name: Option<&str>, title: &str) -> (r:
    String)
    ensures
        r@ == caption_name(pinned, opt_text(custom_label), opt_text(effective_name), title@),
{
    if pinned {
        if let Some(c) = custom_label {
            let cs = chars_of(c);
            if cs.len() > 0 {
                return c.to_string();
            }
        }
    }
    match effective_name {
        Some(n) => n.to_string(),
        None => title.to_string(),
    }
}

/// The number of bytes counted since the previous sample, when that
/// sample was of the same interface and direction and the counter has not
/// gone backwards (a reset or a replug); `None` otherwise, for one tick.
pub fn counter_delta(
    previous: Option<(&str, Direction, u64)>,
    name: &str,
    direction: Direction,
    current_bytes: u64,
) -> (r: Option<u64>)
    ensures
        r == (match previous {
            Some(p) if p.0@ == name@ && p.1 == direction && current_bytes >= p.2 => Some(
                (current_bytes - p.2) as u64,
            ),
            _ => None,
        }),
{
    match previous {
        Some((prev_name, prev_direction, prev_bytes)) => {
            let nc = chars_of(name);
            if text_equals(prev_name, &nc) && prev_direction == direction && current_bytes >= prev_bytes {
                Some(current_bytes - prev_bytes)
            } else {
                None
            }
        },
        None => None,
    }
}

/// True if `entries[index]` is a pinned entry rather than the `Auto`
/// placeholder or out of range.
pub fn is_manual<T>(entries: &[Option<T>], index: usize) -> (b: bool)
    ensures
        b == (index < entries@.len() && entries@[index as int] is Some),
{
    index < entries.len() && entries[index].is_some()
}


/// The bytes received and sent since the previous sample `previous` (an
/// interface name with its received and sent counters), when it was of
/// the same interface and neither counter has gone backwards; `None`
/// otherwise.
pub fn rate_deltas(previous: Option<(&str, u64, u64)>, name: &str, rx: u64, tx: u64) -> (r: Option<(u64, u64)>)
    ensures
        r == (match previous {
            Some(p) if p.0@ == name@ && rx >= p.1 && tx >= p.2 => Some(((rx - p.1) as u64, (tx - p.2) as u64)),
            _ => None,
        }),
{
    match previous {
        Some((prev_name, prev_rx, prev_tx)) => {
            if text_equals(prev_name, &chars_of(name)) && rx >= prev_rx && tx >= prev_tx {
                Some((rx - prev_rx, tx - prev_tx))
            } else {
                None
            }
        },
        None => None,
    }
}

/// `s` with its oldest elements dropped until at most `cap` remain.
pub open spec fn newest<T>(s: Seq<T>, cap: nat) -> Seq<T> {
    if s.len() > cap {
        s.skip(s.len() - cap)
    } else {
        s
    }
}

/// Appends `sample` to the history `history` (oldest first) and drops its
/// oldest entries until at most `cap` remain.
pub fn push_capped<T>(history: &mut Vec<T>, sample: T, cap: usize)
    ensures
        final(history)@ == newest(old(history)@.push(sample), cap as nat),
{
    let ghost full = old(history)@.push(sample);
    history.push(sample);
    let ghost mut dropped: int = 0;
    assert(full.skip(0) =~= full);
    while history.len() > cap
        invariant
            0 <= dropped <= full.len(),
            history@ == full.skip(dropped),
            dropped == 0 || full.len() - dropped >= cap,
        decreases history@.len(),
    {
        history.remove(0);
        proof {
            assert(history@ =~= full.skip(dropped + 1));
            dropped = dropped + 1;
        }
    }
    proof {
        if full.len() > cap {
            assert(dropped == full.len() - cap);
        } else {
            assert(dropped == 0);
        }
    }
}

/// A direction read back from the name it is saved under is the same
/// direction.
pub proof fn lemma_direction_name_round_trip(d: Direction)
    ensures
        (if (match d {
            Direction::In => "in"@,
            Direction::Out => "out"@,
        }) == "out"@ {
            Direction::Out
        } else {
            Direction::In
        }) == d,
{
    reveal_strlit("in");
    reveal_strlit("out");
    assert("in"@.len() != "out"@.len());
}

/// The history never holds more than `cap` samples, and what it holds is
/// the newest of them, oldest first.
pub proof fn lemma_history_is_bounded_suffix<T>(s: Seq<T>, cap: nat)
    ensures
        newest(s, cap).len() <= cap || newest(s, cap) == s,
        newest(s, cap).len() == (if s.len() > cap {
            cap as int
        } else {
            s.len() as int
        }),
        forall|i: int|
            0 <= i < newest(s, cap).len() ==> #[trigger] newest(s, cap)[i] == s[s.len() - newest(s, cap).len() + i],
{
}

/// The position of the first interface named `name` in `v`.
pub open spec fn first_named(v: Seq<InterfaceCounters>, name: Seq<char>) -> Option<int>
    decreases v.len(),
{
    if v.len() == 0 {
        None
    } else if v[0].0@ == name {
        Some(0)
    } else {
        match first_named(v.skip(1), name) {
            Some(i) => Some(i + 1),
            None => None,
        }
    }
}

/// The counters of the first interface named `name` among `interfaces`.
fn find_counters(interfaces: &[InterfaceCounters], name: &str) -> (r: Option<usize>)
    ensures
        match r {
            Some(i) => first_named(interfaces@, name@) == Some(i as int) && i < interfaces@.len(),
            None => first_named(interfaces@, name@) is None,
        },
{
    let nc = chars_of(name);
    let mut i: usize = 0;
    assert(interfaces@.skip(0) =~= interfaces@);
    while i < interfaces.len()
        invariant
            nc@ == name@,
            i <= interfaces@.len(),
            first_named(interfaces@, name@) == (match first_named(interfaces@.skip(i as int), name@) {
                Some(k) => Some(k + i),
                None => None::<int>,
            }),
        decreases interfaces@.len() - i,
    {
        assert(interfaces@.skip(i as int)[0] == interfaces@[i as int]);
        assert(interfaces@.skip(i as int).skip(1) =~= interfaces@.skip(i + 1));
        if text_equals(interfaces[i].0.as_str(), &nc) {
            return Some(i);
        }
        i += 1;
    }
    assert(interfaces@.skip(i as int).len() == 0);
    None
}


/// What one tick of a two-rate network card decides from the counters
/// just read: the interface shown, its caption, whether a VPN looks up,
/// the reading of the shown interface (kept as the next tick's previous
/// sample; none when it has no reading), and the bytes received and sent
/// since the previous sample when they can be trusted.
#[derive(Debug, Clone)]
pub struct NetTick {
    pub effective: Option<String>,
    pub caption: String,
    pub vpn: bool,
    pub reading: Option<InterfaceCounters>,
    pub deltas: Option<(u64, u64)>,
}

/// The rates' byte counts since `previous` for the reading `reading`.
pub open spec fn tick_deltas(previous: Option<(Seq<char>, u64, u64)>, reading: Option<InterfaceCounters>) -> Option<
    (u64, u64),
> {
    match (previous, reading) {
        (Some(p), Some(r)) if p.0 == r.0@ && r.1 >= p.1 && r.2 >= p.2 => Some(
            ((r.1 - p.1) as u64, (r.2 - p.2) as u64),
        ),
        _ => None,
    }
}

/// One tick of a network card: with the pinned interface `pinned` (none
/// for automatic), its custom caption, the default-route interface, the
/// generic title, the counters `interfaces` just read and the previous
/// sample `previous`.
pub fn network_tick(
    pinned: Option<&str>,
    custom_label: Option<&str>,
    default_route: Option<&str>,
    title: &str,
    interfaces: &[InterfaceCounters],
    previous: Option<(&str, u64, u64)>,
) -> (r: NetTick)
    ensures
        opt_text_owned(r.effective) == effective_interface(
            opt_text(pinned),
            opt_text(default_route),
            interface_names(interfaces@),
        ),
        r.caption@ == caption_name(pinned is Some, opt_text(custom_label), opt_text_owned(r.effective), title@),
        r.vpn == exists|i: int| 0 <= i < interfaces@.len() && vpn_like(#[trigger] interfaces@[i].0@),
        match r.effective {
            Some(e) => match first_named(interfaces@, e@) {
                Some(i) => r.reading matches Some(x) && x.0@ == interfaces@[i].0@ && x.1 == interfaces@[i].1 && x.2
                    == interfaces@[i].2,
                None => r.reading is None,
            },
            None => r.reading is None,
        },
        r.deltas == tick_deltas(
            match previous {
                Some(p) => Some((p.0@, p.1, p.2)),
                None => None,
            },
            r.reading,
        ),
{
    let effective = effective_interface_name(pinned, default_route, interfaces);
    let caption = match &effective {
        Some(e) => display_label(pinned.is_some(), custom_label, Some(e.as_str()), title),
        None => display_label(pinned.is_some(), custom_label, None, title),
    };
    let vpn = vpn_active(interfaces);
    let reading = match &effective {
        Some(e) => match find_counters(interfaces, e.as_str()) {
            Some(i) => Some((string_of(&chars_of(interfaces[i].0.as_str())), interfaces[i].1, interfaces[i].2)),
            None => None,
        },
        None => None,
    };
    let deltas = match &reading {
        Some(x) => rate_deltas(previous, x.0.as_str(), x.1, x.2),
        None => None,
    };
    NetTick { effective, caption, vpn, reading, deltas }
}

pub open spec fn opt_text_owned(s: Option<String>) -> Option<Seq<char>> {
    match s {
        Some(t) => Some(t@),
        None => None,
    }
}

/// The counter a one-direction card tracks in the reading `reading`: the
/// bytes received for `In`, the bytes sent for `Out`.
pub fn direction_bytes(reading: &InterfaceCounters, direction: Direction) -> (b: u64)
    ensures
        b == (match direction {
            Direction::In => reading.1,
            Direction::Out => reading.2,
        }),
{
    match direction {
        Direction::In => reading.1,
        Direction::Out => reading.2,
    }
}

/// The sample a one-direction card keeps for its next tick.
pub type DirectionSample = (String, Direction, u64);

/// One tick of a one-direction card tracking `direction`: the shared
/// decisions of `network_tick` (with no rate sample of its own), then, for
/// the interface read, the bytes counted in that direction since the
/// previous sample `previous` of the same interface and direction, and the
/// sample to keep for the next tick; neither when no interface was read.
pub fn directional_tick(
    pinned: Option<&str>,
    custom_label: Option<&str>,
    default_route: Option<&str>,
    title: &str,
    interfaces: &[InterfaceCounters],
    previous: Option<(&str, Direction, u64)>,
    direction: Direction,
) -> (r: (NetTick, Option<u64>, Option<DirectionSample>))
    ensures
        opt_text_owned(r.0.effective) == effective_interface(
            opt_text(pinned),
            opt_text(default_route),
            interface_names(interfaces@),
        ),
        r.0.caption@ == caption_name(pinned is Some, opt_text(custom_label), opt_text_owned(r.0.effective), title@),
        r.0.vpn == exists|i: int| 0 <= i < interfaces@.len() && vpn_like(#[trigger] interfaces@[i].0@),
        match r.0.effective {
            Some(e) => match first_named(interfaces@, e@) {
                Some(i) => r.0.reading matches Some(x) && x.0@ == interfaces@[i].0@ && x.1 == interfaces@[i].1
                    && x.2 == interfaces@[i].2,
                None => r.0.reading is None,
            },
            None => r.0.reading is None,
        },
        r.0.deltas is None,
        match r.0.reading {
            Some(x) => {
                let bytes = match direction {
                    Direction::In => x.1,
                    Direction::Out => x.2,
                };
                &&& r.1 == (match previous {
                    Some(p) if p.0@ == x.0@ && p.1 == direction && bytes >= p.2 => Some((bytes - p.2) as u64),
                    _ => None,
                })
                &&& r.2 matches Some(s) && s.0@ == x.0@ && s.1 == direction && s.2 == bytes
            },
            None => r.1 is None && r.2 is None,
        },
{
    let tick = network_tick(pinned, custom_label, default_route, title, interfaces, None);
    match &tick.reading {
        Some(reading) => {
            let bytes = direction_bytes(reading, direction);
            let delta = counter_delta(previous, reading.0.as_str(), direction, bytes);
            let sample = Some((string_of(&chars_of(reading.0.as_str())), direction, bytes));
            (tick, delta, sample)
        },
        None => (tick, None, None),
    }
}


/// An interface is VPN-like exactly when its name begins with `wg`
/// (WireGuard), `tun` or `tap` (OpenVPN and other tunnels) or `ppp`
/// (PPTP and L2TP); a list of interfaces has an active VPN exactly when one
/// of them is VPN-like.
pub proof fn lemma_vpn_prefixes(name: Seq<char>, interfaces: Seq<InterfaceCounters>)
    ensures
        vpn_like(name) <==> ((name.len() >= 2 && name.subrange(0, 2) == "wg"@) || (name.len() >= 3
            && name.subrange(0, 3) == "tun"@) || (name.len() >= 3 && name.subrange(0, 3) == "tap"@) || (
        name.len() >= 3 && name.subrange(0, 3) == "ppp"@)),
        (exists|i: int|
            0 <= i < interfaces.len() && (#[trigger] interfaces[i]).0@.len() >= 3 && interfaces[i].0@.subrange(0, 3)
                == "ppp"@) ==> exists|i: int| 0 <= i < interfaces.len() && vpn_like(#[trigger] interfaces[i].0@),
{
    reveal_strlit("wg");
    reveal_strlit("tun");
    reveal_strlit("tap");
    reveal_strlit("ppp");
    assert(name.len() >= 2 ==> name.take(2) =~= name.subrange(0, 2));
    assert(name.len() >= 3 ==> name.take(3) =~= name.subrange(0, 3));
    if exists|i: int|
        0 <= i < interfaces.len() && (#[trigger] interfaces[i]).0@.len() >= 3 && interfaces[i].0@.subrange(0, 3)
            == "ppp"@ {
        let i = choose|i: int|
            0 <= i < interfaces.len() && (#[trigger] interfaces[i]).0@.len() >= 3 && interfaces[i].0@.subrange(0, 3)
                == "ppp"@;
        let n = interfaces[i].0@;
        assert(n.take(3) =~= n.subrange(0, 3));
        assert(vpn_like(n));
    }
}

} // verus!
