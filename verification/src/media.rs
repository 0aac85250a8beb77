//! The media-player widget: the text it shows and which player it shows.
use vstd::prelude::*;

use crate::text::{chars_of, decimal, push_decimal, string_of, trim_by, trim_chars, Sep};

verus! {

/// `t` cut to `max_chars` characters: unchanged when it fits, else its
/// first `max_chars - 1` characters without trailing whitespace, followed by
/// an ellipsis.
pub open spec fn truncated(t: Seq<char>, max_chars: nat) -> Seq<char> {
    if t.len() <= max_chars {
        t
    } else {
        let keep: int = if max_chars >= 1 {
            max_chars - 1
        } else {
            0
        };
        trim_end_ws(t.take(keep)).push('…')
    }
}

pub open spec fn trim_end_ws(s: Seq<char>) -> Seq<char> {
    crate::text::trim_end_by(s, Sep::Whitespace)
}

/// Shortens `text` to at most `max_chars` characters, marking the cut with
/// an ellipsis.
pub fn truncate(text: &str, max_chars: usize) -> (r: String)
    ensures
        r@ == truncated(text@, max_chars as nat),
{
    let cs = chars_of(text);
    if cs.len() <= max_chars {
        return text.to_string();
    }
    let keep: usize = if max_chars >= 1 {
        max_chars - 1
    } else {
        0
    };
    let mut short: Vec<char> = Vec::new();
    let mut i: usize = 0;
    while i < keep
        invariant
            keep < cs@.len(),
            i <= keep,
            short@ == cs@.take(i as int),
        decreases keep - i,
    {
        short.push(cs[i]);
        assert(cs@.take(i + 1) =~= cs@.take(i as int).push(cs@[i as int]));
        i += 1;
    }
    let mut short = trim_end_chars(short);
    short.push('…');
    string_of(&short)
}

fn trim_end_chars(v: Vec<char>) -> (out: Vec<char>)
    ensures
        out@ == trim_end_ws(v@),
    decreases v@.len(),
{
    let mut v = v;
    if v.len() > 0 && crate::text::is_whitespace(v[v.len() - 1]) {
        let ghost before = v@;
        v.pop();
        assert(v@ =~= before.drop_last());
        trim_end_chars(v)
    } else {
        v
    }
}

/// `minutes:seconds`, the seconds on two digits.
pub open spec fn clock_text(total: nat) -> Seq<char> {
    let s = total % 60;
    decimal(total / 60) + ":"@ + (if s < 10 {
        "0"@
    } else {
        Seq::<char>::empty()
    }) + decimal(s)
}

/// Formats a whole number of seconds as a track position.
pub fn format_seconds(total: u64) -> (r: String)
    ensures
        r@ == clock_text(total as nat),
{
    let mut v: Vec<char> = Vec::new();
    push_decimal(&mut v, total / 60);
    v.push(':');
    let s = total % 60;
    if s < 10 {
        v.push('0');
    }
    push_decimal(&mut v, s);
    proof {
        reveal_strlit(":");
        reveal_strlit("0");
        assert(v@ =~= clock_text(total as nat));
    }
    string_of(&v)
}


/// The bus-name prefix of every media player on the session bus.
pub const MPRIS_PREFIX: &'static str = "org.mpris.MediaPlayer2.";

/// Whether the bus name `name` is that of a media player.
pub fn is_player_bus_name(name: &str) -> (b: bool)
    ensures
        b == (crate::text::strip_prefix(name@, MPRIS_PREFIX@) is Some),
{
    crate::text::strip_prefix_chars(&crate::text::chars_of(name), MPRIS_PREFIX).is_some()
}

/// The index of the first status in `statuses` that is `Playing`.
pub open spec fn first_playing(statuses: Seq<Seq<char>>) -> Option<int>
    decreases statuses.len(),
{
    if statuses.len() == 0 {
        None
    } else if statuses[0] == "Playing"@ {
        Some(0)
    } else {
        match first_playing(statuses.skip(1)) {
            Some(i) => Some(i + 1),
            None => None,
        }
    }
}

/// The player to show among players with playback statuses `statuses`
/// (in the order they are known): the first one playing, else the first
/// one, else none.
pub open spec fn active_choice(statuses: Seq<Seq<char>>) -> Option<int> {
    match first_playing(statuses) {
        Some(i) => Some(i),
        None => if statuses.len() > 0 {
            Some(0)
        } else {
            None
        },
    }
}

/// The index of the player to show among players with playback statuses
/// `statuses`.
pub fn pick_active_player(statuses: &Vec<String>) -> (r: Option<usize>)
    ensures
        match r {
            Some(i) => active_choice(statuses@.map_values(|s: String| s@)) == Some(i as int),
            None => active_choice(statuses@.map_values(|s: String| s@)) is None,
        },
{
    let ghost sv = statuses@.map_values(|s: String| s@);
    let mut i: usize = 0;
    assert(sv.skip(0) =~= sv);
    while i < statuses.len()
        invariant
            sv == statuses@.map_values(|s: String| s@),
            i <= statuses@.len(),
            first_playing(sv) == (match first_playing(sv.skip(i as int)) {
                Some(k) => Some(k + i),
                None => None::<int>,
            }),
        decreases statuses@.len() - i,
    {
        assert(sv[i as int] == statuses@[i as int]@);
        assert(sv.skip(i as int)[0] == sv[i as int]);
        assert(sv.skip(i as int).skip(1) =~= sv.skip(i + 1));
        if crate::text::text_equals("Playing", &crate::text::chars_of(statuses[i].as_str())) {
            return Some(i);
        }
        i += 1;
    }
    assert(sv.skip(i as int).len() == 0);
    if statuses.len() > 0 {
        Some(0)
    } else {
        None
    }
}

/// Whether showing the player `candidate` (by bus name) in place of
/// `current` changes what is shown.
pub fn active_changed(current: Option<&str>, candidate: Option<&str>) -> (b: bool)
    ensures
        b == (match (current, candidate) {
            (Some(a), Some(c)) => a@ != c@,
            (None, None) => false,
            _ => true,
        }),
{
    match (current, candidate) {
        (Some(a), Some(c)) => !crate::text::text_equals(a, &crate::text::chars_of(c)),
        (None, None) => false,
        _ => true,
    }
}

/// Shortened text never runs past `max_chars` characters (given room for
/// at least the ellipsis), and what it keeps of the text is the text's
/// beginning.
pub proof fn lemma_truncated_fits(t: Seq<char>, max_chars: nat)
    requires
        max_chars >= 1,
    ensures
        truncated(t, max_chars).len() <= max_chars,
        t.len() > max_chars ==> truncated(t, max_chars).last() == '…' && truncated(t, max_chars).drop_last()
            == t.take(truncated(t, max_chars).len() - 1),
{
    if t.len() > max_chars {
        let kept = t.take(max_chars - 1);
        crate::text::lemma_trim_end_is_prefix(kept, Sep::Whitespace);
        let tr = trim_end_ws(kept);
        assert(truncated(t, max_chars).drop_last() =~= tr);
        assert(kept.take(tr.len() as int) =~= t.take(tr.len() as int));
    }
}

/// The title and artist lines of the track shown: the title, or
/// `unknown_title` when it is missing or empty; the artists joined with
/// `, `, or `unknown_artist` when there are none; each shortened to its
/// room (`max_title` and `max_artist` characters).
pub open spec fn track_lines(
    title: Option<Seq<char>>,
    artists: Seq<Seq<char>>,
    unknown_title: Seq<char>,
    unknown_artist: Seq<char>,
    max_title: nat,
    max_artist: nat,
) -> (Seq<char>, Seq<char>) {
    let t = match title {
        Some(x) if x.len() > 0 => x,
        _ => unknown_title,
    };
    let a = if artists.len() == 0 {
        unknown_artist
    } else {
        joined(artists)
    };
    (truncated(t, max_title), truncated(a, max_artist))
}

/// The texts `parts` joined with `, `.
pub open spec fn joined(parts: Seq<Seq<char>>) -> Seq<char>
    decreases parts.len(),
{
    if parts.len() == 0 {
        Seq::empty()
    } else if parts.len() == 1 {
        parts[0]
    } else {
        joined(parts.drop_last()) + ", "@ + parts.last()
    }
}

/// The room of the title line, in characters.
pub const MAX_TITLE_CHARS: usize = 20;

/// The room of the artist line, in characters.
pub const MAX_ARTIST_CHARS: usize = 30;

/// The title and artist lines for a track's metadata, with the
/// translated texts for an unknown title or artist.
pub fn track_texts(title: Option<&str>, artists: &Vec<String>, unknown_title: &str, unknown_artist: &str) -> (r: (
    String,
    String,
))
    ensures
        (r.0@, r.1@) == track_lines(
            match title {
                Some(t) => Some(t@),
                None => None,
            },
            artists@.map_values(|a: String| a@),
            unknown_title@,
            unknown_artist@,
            MAX_TITLE_CHARS as nat,
            MAX_ARTIST_CHARS as nat,
        ),
{
    let t = match title {
        Some(x) if chars_of(x).len() > 0 => x,
        _ => unknown_title,
    };
    let ghost av = artists@.map_values(|a: String| a@);
    let mut v: Vec<char> = Vec::new();
    let mut i: usize = 0;
    proof {
        reveal_strlit(", ");
    }
    assert(av.take(0) =~= Seq::<Seq<char>>::empty());
    while i < artists.len()
        invariant
            i <= artists@.len(),
            av == artists@.map_values(|a: String| a@),
            v@ == joined(av.take(i as int)),
        decreases artists@.len() - i,
    {
        let ghost before = v@;
        assert(av[i as int] == artists@[i as int]@);
        assert(av.take(i + 1).drop_last() =~= av.take(i as int));
        assert(av.take(i + 1).last() == av[i as int]);
        if i > 0 {
            crate::text::push_str(&mut v, ", ");
        }
        crate::text::push_str(&mut v, artists[i].as_str());
        proof {
            if i == 0 {
                assert(av.take(1) =~= seq![av[0]]);
                assert(v@ =~= av[0]);
            } else {
                assert(v@ =~= before + ", "@ + av[i as int]);
            }
        }
        i += 1;
    }
    assert(av.take(i as int) =~= av);
    let a = if artists.len() == 0 {
        string_of(&chars_of(unknown_artist))
    } else {
        string_of(&v)
    };
    (truncate(t, MAX_TITLE_CHARS), truncate(a.as_str(), MAX_ARTIST_CHARS))
}

/// The play button's icon and the translation key of its hover text: a
/// pause button while playing, a play button otherwise.
pub fn play_button_look(playing: bool) -> (r: (&'static str, &'static str))
    ensures
        r.0@ == (if playing {
            "media-playback-pause-symbolic"@
        } else {
            "media-playback-start-symbolic"@
        }),
        r.1@ == (if playing {
            "widgets.audio.pause"@
        } else {
            "widgets.audio.play"@
        }),
{
    if playing {
        ("media-playback-pause-symbolic", "widgets.audio.pause")
    } else {
        ("media-playback-start-symbolic", "widgets.audio.play")
    }
}
} // verus!
