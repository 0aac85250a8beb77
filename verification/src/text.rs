//! Character-level helpers shared by the parsers and formatters.
use vstd::prelude::*;

verus! {

/// `String::push`: trusted to append `ch` to the characters of `s`, as
/// its documentation says.
pub assume_specification[ String::push ](s: &mut String, ch: char)
    ensures
        final(s)@ == old(s)@.push(ch),
;

/// The characters of `s`, in order.
pub fn chars_of(s: &str) -> (out: Vec<char>)
    ensures
        out@ == s@,
{
    let mut out: Vec<char> = Vec::new();
    for c in it: s.chars()
        invariant
            out@ == it.seq().take(it.index() as int),
            it.seq() == s@,
    {
        out.push(c);
    }
    out
}

/// A string holding exactly the characters of `cs`.
pub fn string_of(cs: &Vec<char>) -> (out: String)
    ensures
        out@ == cs@,
{
    let mut out = String::new();
    let mut i: usize = 0;
    while i < cs.len()
        invariant
            i <= cs.len(),
            out@ == cs@.take(i as int),
        decreases cs.len() - i,
    {
        out.push(cs[i]);
        assert(cs@.take(i as int + 1) == cs@.take(i as int).push(cs@[i as int]));
        i += 1;
    }
    assert(cs@.take(cs.len() as int) == cs@);
    out
}

} // verus!

verus! {

/// Appending `name` to the path `base` the way a path buffer does: an
/// absolute `name` replaces `base`, otherwise a `/` separates the two
/// unless `base` is empty or already ends with one.
pub open spec fn path_join(base: Seq<char>, name: Seq<char>) -> Seq<char> {
    if name.len() > 0 && name[0] == '/' {
        name
    } else if base.len() == 0 || base.last() == '/' {
        base + name
    } else {
        base + seq!['/'] + name
    }
}

/// `v` followed by the characters of `s`.
pub fn push_str(v: &mut Vec<char>, s: &str)
    ensures
        final(v)@ == old(v)@ + s@,
{
    let cs = chars_of(s);
    let mut i: usize = 0;
    while i < cs.len()
        invariant
            i <= cs@.len(),
            cs@ == s@,
            v@ == old(v)@ + s@.take(i as int),
        decreases cs@.len() - i,
    {
        v.push(cs[i]);
        assert(s@.take(i as int + 1) == s@.take(i as int).push(s@[i as int]));
        i += 1;
    }
    assert(s@.take(s@.len() as int) == s@);
}

/// The path `base` joined with `name`.
pub fn join_path(base: &str, name: &str) -> (out: String)
    ensures
        out@ == path_join(base@, name@),
{
    let n = chars_of(name);
    let b = chars_of(base);
    let mut v: Vec<char> = Vec::new();
    if n.len() > 0 && n[0] == '/' {
        push_str(&mut v, name);
    } else if b.len() == 0 || b[b.len() - 1] == '/' {
        push_str(&mut v, base);
        push_str(&mut v, name);
    } else {
        push_str(&mut v, base);
        v.push('/');
        push_str(&mut v, name);
    }
    string_of(&v)
}

/// `a` immediately followed by `b`.
pub fn concat(a: &str, b: &str) -> (out: String)
    ensures
        out@ == a@ + b@,
{
    let mut v: Vec<char> = Vec::new();
    push_str(&mut v, a);
    push_str(&mut v, b);
    string_of(&v)
}

} // verus!

verus! {

/// Whether `s` starts with the character `c`.
pub fn starts_with_char(s: &str, c: char) -> (b: bool)
    ensures
        b == (s@.len() > 0 && s@[0] == c),
{
    let cs = chars_of(s);
    cs.len() > 0 && cs[0] == c
}

} // verus!

verus! {

/// Whether the characters of `s` equal `cs`.
pub fn text_equals(s: &str, cs: &Vec<char>) -> (b: bool)
    ensures
        b == (s@ == cs@),
{
    let sc = chars_of(s);
    if sc.len() != cs.len() {
        return false;
    }
    let mut i: usize = 0;
    while i < sc.len()
        invariant
            sc@ == s@,
            sc@.len() == cs@.len(),
            i <= sc@.len(),
            forall|j: int| 0 <= j < i ==> sc@[j] == cs@[j],
        decreases sc@.len() - i,
    {
        if sc[i] != cs[i] {
            return false;
        }
        i += 1;
    }
    assert(sc@ =~= cs@);
    true
}

/// `s` with every non-overlapping occurrence of `pat`, scanned from left to
/// right, replaced by `rep`.
pub open spec fn replace_all(s: Seq<char>, pat: Seq<char>, rep: Seq<char>) -> Seq<char>
    recommends
        pat.len() > 0,
    decreases s.len(),
{
    if s.len() == 0 {
        s
    } else if pat.len() > 0 && pat.len() <= s.len() && s.take(pat.len() as int) == pat {
        rep + replace_all(s.skip(pat.len() as int), pat, rep)
    } else {
        seq![s[0]] + replace_all(s.skip(1), pat, rep)
    }
}

/// Whether `pat` occurs in `s` at position `i`.
fn occurs_at(s: &Vec<char>, i: usize, pat: &Vec<char>) -> (b: bool)
    requires
        i + pat@.len() <= s@.len(),
    ensures
        b == (s@.subrange(i as int, i + pat@.len()) == pat@),
{
    let mut j: usize = 0;
    while j < pat.len()
        invariant
            i + pat@.len() <= s@.len(),
            j <= pat@.len(),
            forall|q: int| 0 <= q < j ==> s@[i + q] == pat@[q],
        decreases pat@.len() - j,
    {
        assert(i + j < s.len());
        if s[i + j] != pat[j] {
            assert(s@.subrange(i as int, i + pat@.len())[j as int] != pat@[j as int]);
            return false;
        }
        j += 1;
    }
    assert(s@.subrange(i as int, i + pat@.len()) =~= pat@);
    true
}

/// `s` with every occurrence of `pat` replaced by `rep`.
pub fn replace_chars(s: &Vec<char>, pat: &Vec<char>, rep: &Vec<char>) -> (out: Vec<char>)
    requires
        pat@.len() > 0,
    ensures
        out@ == replace_all(s@, pat@, rep@),
{
    let mut out: Vec<char> = Vec::new();
    let mut i: usize = 0;
    assert(s@.skip(0) =~= s@);
    while i < s.len()
        invariant
            pat@.len() > 0,
            i <= s@.len(),
            out@ + replace_all(s@.skip(i as int), pat@, rep@) == replace_all(s@, pat@, rep@),
        decreases s@.len() - i,
    {
        let ghost rest = s@.skip(i as int);
        if pat.len() <= s.len() - i && occurs_at(s, i, pat) {
            assert(rest.take(pat@.len() as int) =~= s@.subrange(i as int, i + pat@.len()));
            assert(rest.skip(pat@.len() as int) =~= s@.skip(i + pat@.len()));
            let mut j: usize = 0;
            let ghost before = out@;
            while j < rep.len()
                invariant
                    j <= rep@.len(),
                    out@ == before + rep@.take(j as int),
                decreases rep@.len() - j,
            {
                out.push(rep[j]);
                assert(rep@.take(j as int + 1) =~= rep@.take(j as int).push(rep@[j as int]));
                j += 1;
            }
            assert(rep@.take(rep@.len() as int) =~= rep@);
            assert(before + (rep@ + replace_all(s@.skip(i + pat@.len()), pat@, rep@)) =~= out@ + replace_all(
                s@.skip(i + pat@.len()),
                pat@,
                rep@,
            ));
            i = i + pat.len();
        } else {
            if pat.len() <= s.len() - i {
                assert(rest.take(pat@.len() as int) =~= s@.subrange(i as int, i + pat@.len()));
            }
            assert(rest.skip(1) =~= s@.skip(i + 1));
            assert(rest[0] == s@[i as int]);
            let ghost before = out@;
            out.push(s[i]);
            assert(before + (seq![s@[i as int]] + replace_all(s@.skip(i + 1), pat@, rep@)) =~= out@ + replace_all(
                s@.skip(i + 1),
                pat@,
                rep@,
            ));
            i = i + 1;
        }
    }
    assert(out@ + replace_all(s@.skip(i as int), pat@, rep@) =~= out@);
    out
}

} // verus!

verus! {

/// How pieces of text are separated: by one given character, or by any
/// whitespace character.
#[derive(Clone, Copy)]
pub enum Sep {
    Char(char),
    Whitespace,
}

/// The characters `char::is_whitespace` accepts: Unicode `White_Space`.
pub open spec fn is_ws(c: char) -> bool {
    ||| ('\u{9}' <= c && c <= '\u{d}')
    ||| c == ' '
    ||| c == '\u{85}'
    ||| c == '\u{a0}'
    ||| c == '\u{1680}'
    ||| ('\u{2000}' <= c && c <= '\u{200a}')
    ||| c == '\u{2028}'
    ||| c == '\u{2029}'
    ||| c == '\u{202f}'
    ||| c == '\u{205f}'
    ||| c == '\u{3000}'
}

pub fn is_whitespace(c: char) -> (b: bool)
    ensures
        b == is_ws(c),
{
    ('\u{9}' <= c && c <= '\u{d}') || c == ' ' || c == '\u{85}' || c == '\u{a0}' || c == '\u{1680}' || ('\u{2000}'
        <= c && c <= '\u{200a}') || c == '\u{2028}' || c == '\u{2029}' || c == '\u{202f}' || c == '\u{205f}' || c
        == '\u{3000}'
}

pub open spec fn is_sep(sep: Sep, c: char) -> bool {
    match sep {
        Sep::Char(d) => c == d,
        Sep::Whitespace => is_ws(c),
    }
}

fn sep_matches(sep: Sep, c: char) -> (b: bool)
    ensures
        b == is_sep(sep, c),
{
    match sep {
        Sep::Char(d) => c == d,
        Sep::Whitespace => is_whitespace(c),
    }
}

/// `cur` prepended to the first piece of `ps`.
pub open spec fn attach(cur: Seq<char>, ps: Seq<Seq<char>>) -> Seq<Seq<char>> {
    ps.update(0, cur + ps[0])
}

/// The pieces of `s` between separators, empty ones included; always at
/// least one piece.
pub open spec fn split_by(s: Seq<char>, sep: Sep) -> Seq<Seq<char>>
    decreases s.len(),
{
    if s.len() == 0 {
        seq![Seq::empty()]
    } else if is_sep(sep, s[0]) {
        seq![Seq::<char>::empty()] + split_by(s.skip(1), sep)
    } else {
        attach(seq![s[0]], split_by(s.skip(1), sep))
    }
}

pub proof fn lemma_split_nonempty(s: Seq<char>, sep: Sep)
    ensures
        split_by(s, sep).len() >= 1,
    decreases s.len(),
{
    if s.len() > 0 {
        lemma_split_nonempty(s.skip(1), sep);
    }
}

/// The pieces of `s` between separators.
pub fn split_chars(s: &Vec<char>, sep: Sep) -> (out: Vec<Vec<char>>)
    ensures
        out@.map_values(|p: Vec<char>| p@) == split_by(s@, sep),
{
    let mut done: Vec<Vec<char>> = Vec::new();
    let mut cur: Vec<char> = Vec::new();
    let mut i: usize = 0;
    assert(s@.skip(0) =~= s@);
    proof {
        lemma_split_nonempty(s@, sep);
        assert(attach(cur@, split_by(s@, sep)) =~= split_by(s@, sep));
    }
    while i < s.len()
        invariant
            i <= s@.len(),
            split_by(s@, sep) == done@.map_values(|p: Vec<char>| p@) + attach(cur@, split_by(s@.skip(i as int), sep)),
        decreases s@.len() - i,
    {
        let c = s[i];
        let ghost rest = split_by(s@.skip(i as int + 1), sep);
        proof {
            lemma_split_nonempty(s@.skip(i as int + 1), sep);
            assert(s@.skip(i as int).skip(1) =~= s@.skip(i as int + 1));
            assert(s@.skip(i as int)[0] == c);
        }
        if sep_matches(sep, c) {
            let ghost before = done@.map_values(|p: Vec<char>| p@);
            let ghost old_cur = cur@;
            let finished = cur;
            done.push(finished);
            cur = Vec::new();
            proof {
                assert(done@.map_values(|p: Vec<char>| p@) =~= before.push(old_cur));
                assert(attach(old_cur, seq![Seq::<char>::empty()] + rest) =~= seq![old_cur] + rest);
                assert(attach(cur@, rest) =~= rest);
                assert(before + (seq![old_cur] + rest) =~= before.push(old_cur) + rest);
            }
        } else {
            let ghost old_cur = cur@;
            cur.push(c);
            proof {
                assert(old_cur + (seq![c] + rest[0]) =~= cur@ + rest[0]);
                assert(attach(seq![c], rest)[0] == seq![c] + rest[0]);
                assert(attach(old_cur, attach(seq![c], rest)) =~= attach(cur@, rest));
            }
        }
        i += 1;
    }
    let ghost before = done@.map_values(|p: Vec<char>| p@);
    let ghost last = cur@;
    assert(s@.skip(i as int) =~= Seq::<char>::empty());
    assert(attach(last, split_by(Seq::<char>::empty(), sep)) =~= seq![last]);
    done.push(cur);
    assert(done@.map_values(|p: Vec<char>| p@) =~= before.push(last));
    done
}

} // verus!

verus! {

pub open spec fn views(vs: Seq<Vec<char>>) -> Seq<Seq<char>> {
    vs.map_values(|p: Vec<char>| p@)
}

/// A line without its `\r` terminator, if it has one.
pub open spec fn strip_cr(p: Seq<char>) -> Seq<char> {
    if p.len() > 0 && p.last() == '\r' {
        p.drop_last()
    } else {
        p
    }
}

/// The lines of `s` as `str::lines` yields them: split at `\n`, a `\r`
/// right before a `\n` dropped, and no empty last line after a final `\n`.
pub open spec fn lines(s: Seq<char>) -> Seq<Seq<char>> {
    let ps = split_by(s, Sep::Char('\n'));
    ps.drop_last().map_values(|p: Seq<char>| strip_cr(p)) + (if ps.last().len() == 0 {
        Seq::<Seq<char>>::empty()
    } else {
        seq![ps.last()]
    })
}

pub fn strip_cr_vec(p: Vec<char>) -> (out: Vec<char>)
    ensures
        out@ == strip_cr(p@),
{
    let mut p = p;
    if p.len() > 0 && p[p.len() - 1] == '\r' {
        p.pop();
    }
    p
}

/// The lines of `s`.
pub fn lines_of(s: &Vec<char>) -> (out: Vec<Vec<char>>)
    ensures
        views(out@) == lines(s@),
{
    let mut pieces = split_chars(s, Sep::Char('\n'));
    let ghost ps = views(pieces@);
    proof {
        lemma_split_nonempty(s@, Sep::Char('\n'));
    }
    let last = pieces.pop().unwrap();
    let ghost init = ps.drop_last();
    assert(views(pieces@) =~= init);
    let mut out: Vec<Vec<char>> = Vec::new();
    let ghost mut i: int = 0;
    let mut rest = pieces;
    let ghost n = init.len();
    assert(views(rest@) =~= init.skip(0));
    while rest.len() > 0
        invariant
            0 <= i <= n,
            n == init.len(),
            views(rest@) == init.skip(i),
            views(out@) == init.take(i).map_values(|p: Seq<char>| strip_cr(p)),
        decreases rest@.len(),
    {
        let ghost old_rest = rest@;
        assert(views(old_rest).len() == old_rest.len());
        let p = rest.remove(0);
        assert(views(old_rest)[0] == p@);
        assert(views(rest@) =~= views(old_rest).skip(1));
        assert(init.skip(i).skip(1) =~= init.skip(i + 1));
        let q = strip_cr_vec(p);
        let ghost before = views(out@);
        out.push(q);
        proof {
            assert(init.skip(i)[0] == init[i]);
            assert(views(rest@) =~= init.skip(i + 1));
            assert(views(out@) =~= before.push(strip_cr(init[i])));
            assert(init.take(i + 1).map_values(|p: Seq<char>| strip_cr(p)) =~= init.take(i).map_values(
                |p: Seq<char>| strip_cr(p),
            ).push(strip_cr(init[i])));
        }
        proof {
            i = i + 1;
        }
    }
    assert(init.take(n as int) =~= init);
    let ghost body = views(out@);
    if last.len() > 0 {
        out.push(last);
        assert(views(out@) =~= body + seq![ps.last()]);
    } else {
        assert(body + Seq::<Seq<char>>::empty() =~= body);
    }
    out
}

/// The non-empty pieces of `ps`, in order.
pub open spec fn nonempty_pieces(ps: Seq<Seq<char>>) -> Seq<Seq<char>>
    decreases ps.len(),
{
    if ps.len() == 0 {
        ps
    } else if ps.last().len() > 0 {
        nonempty_pieces(ps.drop_last()).push(ps.last())
    } else {
        nonempty_pieces(ps.drop_last())
    }
}

/// The whitespace-separated words of `s`, as `str::split_whitespace`
/// yields them.
pub open spec fn words(s: Seq<char>) -> Seq<Seq<char>> {
    nonempty_pieces(split_by(s, Sep::Whitespace))
}

/// The words of `s`.
pub fn words_of(s: &Vec<char>) -> (out: Vec<Vec<char>>)
    ensures
        views(out@) == words(s@),
{
    let pieces = split_chars(s, Sep::Whitespace);
    let ghost ps = views(pieces@);
    let mut rest = pieces;
    let mut out: Vec<Vec<char>> = Vec::new();
    let ghost mut i: int = 0;
    assert(ps.take(0) =~= Seq::<Seq<char>>::empty());
    assert(views(rest@) =~= ps.skip(0));
    while rest.len() > 0
        invariant
            0 <= i <= ps.len(),
            views(rest@) == ps.skip(i),
            views(out@) == nonempty_pieces(ps.take(i)),
        decreases rest@.len(),
    {
        let ghost old_rest = rest@;
        assert(views(old_rest).len() == old_rest.len());
        let p = rest.remove(0);
        assert(views(old_rest)[0] == p@);
        assert(views(rest@) =~= views(old_rest).skip(1));
        assert(ps.skip(i).skip(1) =~= ps.skip(i + 1));
        proof {
            assert(ps.skip(i)[0] == ps[i]);
            assert(views(rest@) =~= ps.skip(i + 1));
            assert(ps.take(i + 1).drop_last() =~= ps.take(i));
            assert(ps.take(i + 1).last() == ps[i]);
        }
        if p.len() > 0 {
            let ghost before = views(out@);
            out.push(p);
            assert(views(out@) =~= before.push(ps[i]));
        }
        proof {
            i = i + 1;
        }
    }
    assert(ps.take(i) =~= ps);
    out
}

} // verus!

verus! {

/// `s` without its leading separator characters.
pub open spec fn trim_start_by(s: Seq<char>, sep: Sep) -> Seq<char>
    decreases s.len(),
{
    if s.len() > 0 && is_sep(sep, s[0]) {
        trim_start_by(s.skip(1), sep)
    } else {
        s
    }
}

/// `s` without its trailing separator characters.
pub open spec fn trim_end_by(s: Seq<char>, sep: Sep) -> Seq<char>
    decreases s.len(),
{
    if s.len() > 0 && is_sep(sep, s.last()) {
        trim_end_by(s.drop_last(), sep)
    } else {
        s
    }
}

/// `s` without its leading and trailing separator characters; with
/// `Sep::Whitespace` this is `str::trim`, with `Sep::Char(c)` it is
/// `str::trim_matches(c)`.
pub open spec fn trim_by(s: Seq<char>, sep: Sep) -> Seq<char> {
    trim_end_by(trim_start_by(s, sep), sep)
}

proof fn lemma_trim_start_skip(s: Seq<char>, sep: Sep, i: int)
    requires
        0 <= i <= s.len(),
        forall|j: int| 0 <= j < i ==> is_sep(sep, #[trigger] s[j]),
    ensures
        trim_start_by(s, sep) == trim_start_by(s.skip(i), sep),
    decreases i,
{
    if i > 0 {
        assert(s.skip(1).skip(i - 1) =~= s.skip(i));
        lemma_trim_start_skip(s.skip(1), sep, i - 1);
    } else {
        assert(s.skip(0) =~= s);
    }
}

proof fn lemma_trim_end_take(s: Seq<char>, sep: Sep, j: int)
    requires
        0 <= j <= s.len(),
        forall|k: int| j <= k < s.len() ==> is_sep(sep, #[trigger] s[k]),
    ensures
        trim_end_by(s, sep) == trim_end_by(s.take(j), sep),
    decreases s.len() - j,
{
    if j < s.len() {
        assert(s.drop_last().take(j) =~= s.take(j));
        lemma_trim_end_take(s.drop_last(), sep, j);
    } else {
        assert(s.take(j) =~= s);
    }
}

/// `s` without its leading and trailing separator characters.
pub fn trim_chars(s: &Vec<char>, sep: Sep) -> (out: Vec<char>)
    ensures
        out@ == trim_by(s@, sep),
{
    let mut i: usize = 0;
    while i < s.len() && sep_matches(sep, s[i])
        invariant
            i <= s@.len(),
            forall|j: int| 0 <= j < i ==> is_sep(sep, #[trigger] s@[j]),
        decreases s@.len() - i,
    {
        i += 1;
    }
    let mut j: usize = s.len();
    while j > i && sep_matches(sep, s[j - 1])
        invariant
            i <= j <= s@.len(),
            forall|k: int| j <= k < s@.len() ==> is_sep(sep, #[trigger] s@[k]),
        decreases j,
    {
        j -= 1;
    }
    let mut out: Vec<char> = Vec::new();
    let mut k: usize = i;
    while k < j
        invariant
            i <= k <= j <= s@.len(),
            out@ == s@.subrange(i as int, k as int),
        decreases j - k,
    {
        out.push(s[k]);
        assert(s@.subrange(i as int, k + 1) =~= s@.subrange(i as int, k as int).push(s@[k as int]));
        k += 1;
    }
    proof {
        lemma_trim_start_skip(s@, sep, i as int);
        let t = s@.skip(i as int);
        assert(trim_start_by(t, sep) == t);
        lemma_trim_end_take(t, sep, j - i);
        let u = t.take(j - i);
        assert(u =~= s@.subrange(i as int, j as int));
        if u.len() > 0 {
            assert(u.last() == s@[j - 1]);
        }
        assert(trim_end_by(u, sep) == u);
    }
    out
}

/// The rest of `s` after the prefix `p`, if `s` starts with `p`.
pub open spec fn strip_prefix(s: Seq<char>, p: Seq<char>) -> Option<Seq<char>> {
    if p.len() <= s.len() && s.take(p.len() as int) == p {
        Some(s.skip(p.len() as int))
    } else {
        None
    }
}

/// The rest of `s` after the prefix `p`, if `s` starts with `p`.
pub fn strip_prefix_chars(s: &Vec<char>, p: &str) -> (out: Option<Vec<char>>)
    ensures
        match out {
            Some(r) => strip_prefix(s@, p@) == Some(r@),
            None => strip_prefix(s@, p@) is None,
        },
{
    let pc = chars_of(p);
    if pc.len() > s.len() {
        return None;
    }
    let mut i: usize = 0;
    while i < pc.len()
        invariant
            pc@ == p@,
            pc@.len() <= s@.len(),
            i <= pc@.len(),
            forall|j: int| 0 <= j < i ==> s@[j] == pc@[j],
        decreases pc@.len() - i,
    {
        if s[i] != pc[i] {
            assert(s@.take(p@.len() as int)[i as int] != p@[i as int]);
            return None;
        }
        i += 1;
    }
    assert(s@.take(p@.len() as int) =~= p@);
    let mut out: Vec<char> = Vec::new();
    let mut k: usize = pc.len();
    while k < s.len()
        invariant
            pc@.len() <= k <= s@.len(),
            out@ == s@.subrange(pc@.len() as int, k as int),
        decreases s@.len() - k,
    {
        out.push(s[k]);
        assert(s@.subrange(pc@.len() as int, k + 1) =~= s@.subrange(pc@.len() as int, k as int).push(s@[k as int]));
        k += 1;
    }
    assert(out@ =~= s@.skip(p@.len() as int));
    Some(out)
}

/// The index of the first `c` in `s`.
pub open spec fn find_char(s: Seq<char>, c: char) -> Option<int>
    decreases s.len(),
{
    if s.len() == 0 {
        None
    } else if s[0] == c {
        Some(0)
    } else {
        match find_char(s.skip(1), c) {
            Some(i) => Some(i + 1),
            None => None,
        }
    }
}

proof fn lemma_find_char(s: Seq<char>, c: char, i: int)
    requires
        0 <= i <= s.len(),
        forall|j: int| 0 <= j < i ==> #[trigger] s[j] != c,
    ensures
        i < s.len() && s[i] == c ==> find_char(s, c) == Some(i),
        i == s.len() ==> find_char(s, c) is None,
    decreases i,
{
    if i > 0 {
        lemma_find_char(s.skip(1), c, i - 1);
    }
}

/// `s` split around its first `c`, as `str::split_once` does.
pub open spec fn split_once(s: Seq<char>, c: char) -> Option<(Seq<char>, Seq<char>)> {
    match find_char(s, c) {
        Some(i) => Some((s.take(i), s.skip(i + 1))),
        None => None,
    }
}

/// `s` split around its first `c`.
pub fn split_once_chars(s: &Vec<char>, c: char) -> (out: Option<(Vec<char>, Vec<char>)>)
    ensures
        match out {
            Some(r) => split_once(s@, c) == Some((r.0@, r.1@)),
            None => split_once(s@, c) is None,
        },
{
    let mut i: usize = 0;
    while i < s.len() && s[i] != c
        invariant
            i <= s@.len(),
            forall|j: int| 0 <= j < i ==> #[trigger] s@[j] != c,
        decreases s@.len() - i,
    {
        i += 1;
    }
    proof {
        lemma_find_char(s@, c, i as int);
    }
    if i == s.len() {
        return None;
    }
    let mut head: Vec<char> = Vec::new();
    let mut k: usize = 0;
    while k < i
        invariant
            k <= i < s@.len(),
            head@ == s@.take(k as int),
        decreases i - k,
    {
        head.push(s[k]);
        assert(s@.take(k + 1) =~= s@.take(k as int).push(s@[k as int]));
        k += 1;
    }
    let mut tail: Vec<char> = Vec::new();
    let mut m: usize = i + 1;
    while m < s.len()
        invariant
            i < s@.len(),
            i + 1 <= m <= s@.len(),
            tail@ == s@.subrange(i + 1, m as int),
        decreases s@.len() - m,
    {
        tail.push(s[m]);
        assert(s@.subrange(i + 1, m + 1) =~= s@.subrange(i + 1, m as int).push(s@[m as int]));
        m += 1;
    }
    assert(tail@ =~= s@.skip(i + 1));
    Some((head, tail))
}

pub open spec fn is_digit(c: char) -> bool {
    '0' <= c && c <= '9'
}

pub open spec fn digit_value(c: char) -> int {
    (c as int) - ('0' as int)
}

/// The value of a string of decimal digits.
pub open spec fn digits_value(d: Seq<char>) -> int
    decreases d.len(),
{
    if d.len() == 0 {
        0
    } else {
        digits_value(d.drop_last()) * 10 + digit_value(d.last())
    }
}

pub open spec fn all_digits(d: Seq<char>) -> bool {
    forall|i: int| 0 <= i < d.len() ==> is_digit(#[trigger] d[i])
}

/// What `str::parse::<u64>` accepts: an optional `+`, then one or more
/// decimal digits whose value fits in a `u64`.
pub open spec fn parse_u64(s: Seq<char>) -> Option<u64> {
    let d = if s.len() > 0 && s[0] == '+' {
        s.skip(1)
    } else {
        s
    };
    if d.len() == 0 || !all_digits(d) || digits_value(d) > u64::MAX {
        None
    } else {
        Some(digits_value(d) as u64)
    }
}

proof fn lemma_digits_value_monotone(d: Seq<char>, i: int)
    requires
        0 <= i <= d.len(),
        all_digits(d),
    ensures
        digits_value(d.take(i)) <= digits_value(d),
        0 <= digits_value(d.take(i)),
    decreases d.len() - i,
{
    if i < d.len() {
        lemma_digits_value_monotone(d, i + 1);
        assert(d.take(i + 1).drop_last() =~= d.take(i));
        assert(is_digit(d[i]));
    } else {
        assert(d.take(i) =~= d);
        lemma_digits_value_nonneg(d);
    }
}

proof fn lemma_digits_value_nonneg(d: Seq<char>)
    requires
        all_digits(d),
    ensures
        0 <= digits_value(d),
    decreases d.len(),
{
    if d.len() > 0 {
        lemma_digits_value_nonneg(d.drop_last());
        assert(is_digit(d.last()));
    }
}

/// Parses `s` as `str::parse::<u64>` does.
pub fn parse_u64_chars(s: &Vec<char>) -> (out: Option<u64>)
    ensures
        out == parse_u64(s@),
{
    let start: usize = if s.len() > 0 && s[0] == '+' {
        1
    } else {
        0
    };
    let ghost d = s@.skip(start as int);
    assert(start == 0 ==> d =~= s@);
    if start == s.len() {
        return None;
    }
    let mut value: u64 = 0;
    let mut i: usize = start;
    assert(d.take(0) =~= Seq::<char>::empty());
    while i < s.len()
        invariant
            start <= i <= s@.len(),
            d == s@.skip(start as int),
            d == (if s@.len() > 0 && s@[0] == '+' {
                s@.skip(1)
            } else {
                s@
            }),
            d.len() > 0,
            forall|j: int| 0 <= j < i - start ==> is_digit(#[trigger] d[j]),
            value == digits_value(d.take(i - start)),
        decreases s@.len() - i,
    {
        let c = s[i];
        assert(d[i - start] == c);
        if !('0' <= c && c <= '9') {
            assert(!all_digits(d));
            return None;
        }
        let dv = (c as u32 - '0' as u32) as u64;
        assert(d.take(i - start + 1).drop_last() =~= d.take(i - start));
        assert(dv == digit_value(c));
        if value > (u64::MAX - dv) / 10 {
            proof {
                assert(digits_value(d.take(i - start + 1)) > u64::MAX);
                if all_digits(d) {
                    lemma_digits_value_monotone(d, i - start + 1);
                }
            }
            return None;
        }
        value = value * 10 + dv;
        i += 1;
    }
    assert(d.take(i - start) =~= d);
    assert(all_digits(d));
    Some(value)
}

} // verus!

verus! {

pub open spec fn digit_char(d: int) -> char {
    ('0' as int + d) as char
}

/// The decimal digits of `n`, without leading zeros (`0` is `"0"`).
pub open spec fn decimal(n: nat) -> Seq<char>
    decreases n,
{
    if n < 10 {
        seq![digit_char(n as int)]
    } else {
        decimal(n / 10).push(digit_char((n % 10) as int))
    }
}

fn digit_to_char(d: u64) -> (c: char)
    requires
        d < 10,
    ensures
        c == digit_char(d as int),
{
    if d == 0 {
        '0'
    } else if d == 1 {
        '1'
    } else if d == 2 {
        '2'
    } else if d == 3 {
        '3'
    } else if d == 4 {
        '4'
    } else if d == 5 {
        '5'
    } else if d == 6 {
        '6'
    } else if d == 7 {
        '7'
    } else if d == 8 {
        '8'
    } else {
        '9'
    }
}

/// Appends the decimal digits of `n` to `v`.
pub fn push_decimal(v: &mut Vec<char>, n: u64)
    ensures
        final(v)@ == old(v)@ + decimal(n as nat),
    decreases n,
{
    if n < 10 {
        v.push(digit_to_char(n));
        assert(old(v)@.push(digit_char(n as int)) =~= old(v)@ + decimal(n as nat));
    } else {
        push_decimal(v, n / 10);
        v.push(digit_to_char(n % 10));
        assert(old(v)@ + decimal((n / 10) as nat) + seq![digit_char((n % 10) as int)] =~= old(v)@ + decimal(
            n as nat,
        ));
    }
}

/// The decimal representation of `n`.
pub fn decimal_string(n: u64) -> (s: String)
    ensures
        s@ == decimal(n as nat),
{
    let mut v: Vec<char> = Vec::new();
    push_decimal(&mut v, n);
    assert(Seq::<char>::empty() + decimal(n as nat) =~= decimal(n as nat));
    string_of(&v)
}

pub open spec fn named_segments(p: Seq<char>) -> Seq<Seq<char>> {
    named_only(split_by(p, Sep::Char('/')))
}

pub open spec fn named_only(ps: Seq<Seq<char>>) -> Seq<Seq<char>>
    decreases ps.len(),
{
    if ps.len() == 0 {
        ps
    } else if ps.last().len() > 0 && ps.last() != "."@ {
        named_only(ps.drop_last()).push(ps.last())
    } else {
        named_only(ps.drop_last())
    }
}

fn is_dot(v: &Vec<char>) -> (b: bool)
    ensures
        b == (v@ == "."@),
{
    text_equals(".", v)
}

/// The named components of the path `p`, in order: what is left once the
/// path is cut at each `/` and the empty and `.` pieces are dropped.
pub fn named_segment_chars(p: &Vec<char>) -> (kept: Vec<Vec<char>>)
    ensures
        views(kept@) == named_segments(p@),
{
    let pieces = split_chars(p, Sep::Char('/'));
    let ghost ps = views(pieces@);
    let mut rest = pieces;
    let mut kept: Vec<Vec<char>> = Vec::new();
    let ghost mut i: int = 0;
    assert(ps.take(0) =~= Seq::<Seq<char>>::empty());
    assert(views(rest@) =~= ps.skip(0));
    while rest.len() > 0
        invariant
            0 <= i <= ps.len(),
            views(rest@) == ps.skip(i),
            views(kept@) == named_only(ps.take(i)),
        decreases rest@.len(),
    {
        let ghost old_rest = rest@;
        assert(views(old_rest).len() == old_rest.len());
        let seg = rest.remove(0);
        assert(views(old_rest)[0] == seg@);
        assert(views(rest@) =~= views(old_rest).skip(1));
        assert(ps.skip(i).skip(1) =~= ps.skip(i + 1));
        assert(ps.skip(i)[0] == ps[i]);
        assert(ps.take(i + 1).drop_last() =~= ps.take(i));
        assert(ps.take(i + 1).last() == ps[i]);
        if seg.len() > 0 && !is_dot(&seg) {
            let ghost before = views(kept@);
            kept.push(seg);
            assert(views(kept@) =~= before.push(ps[i]));
        }
        proof {
            i = i + 1;
        }
    }
    assert(ps.take(i) =~= ps);
    kept
}


/// Whether `pat` occurs in `s` at position `i`.
pub open spec fn occurs_in_at(s: Seq<char>, pat: Seq<char>, i: int) -> bool {
    0 <= i && i + pat.len() <= s.len() && s.subrange(i, i + pat.len()) == pat
}

/// The position of the first occurrence of `pat` in `s`.
pub open spec fn find_seq(s: Seq<char>, pat: Seq<char>) -> Option<int>
    decreases s.len(),
{
    if pat.len() <= s.len() && s.take(pat.len() as int) == pat {
        Some(0)
    } else if s.len() == 0 {
        None
    } else {
        match find_seq(s.skip(1), pat) {
            Some(i) => Some(i + 1),
            None => None,
        }
    }
}

/// Whether `pat` occurs anywhere in `s`.
pub open spec fn contains_seq(s: Seq<char>, pat: Seq<char>) -> bool {
    find_seq(s, pat) is Some
}

proof fn lemma_find_seq(s: Seq<char>, pat: Seq<char>, i: int)
    requires
        0 <= i <= s.len(),
        forall|j: int| 0 <= j < i ==> !#[trigger] occurs_in_at(s, pat, j),
    ensures
        find_seq(s, pat) == (match find_seq(s.skip(i), pat) {
            Some(k) => Some(k + i),
            None => None::<int>,
        }),
    decreases i,
{
    if i == 0 {
        assert(s.skip(0) =~= s);
        match find_seq(s, pat) {
            Some(k) => {},
            None => {},
        }
    } else {
        assert(!occurs_in_at(s, pat, 0));
        if pat.len() <= s.len() {
            assert(s.take(pat.len() as int) =~= s.subrange(0, pat.len() as int));
        }
        assert forall|j: int| 0 <= j < i - 1 implies !#[trigger] occurs_in_at(s.skip(1), pat, j) by {
            assert(!occurs_in_at(s, pat, j + 1));
            if j + pat.len() <= s.len() - 1 {
                assert(s.skip(1).subrange(j, j + pat.len()) =~= s.subrange(j + 1, j + 1 + pat.len()));
            }
        }
        lemma_find_seq(s.skip(1), pat, i - 1);
        assert(s.skip(1).skip(i - 1) =~= s.skip(i));
    }
}

/// The position of the first occurrence of `pat` in `s`.
pub fn find_seq_chars(s: &Vec<char>, pat: &str) -> (r: Option<usize>)
    ensures
        match r {
            Some(i) => find_seq(s@, pat@) == Some(i as int),
            None => find_seq(s@, pat@) is None,
        },
{
    let pc = chars_of(pat);
    let mut i: usize = 0;
    while i < s.len()
        invariant
            pc@ == pat@,
            i <= s@.len(),
            forall|j: int| 0 <= j < i ==> !#[trigger] occurs_in_at(s@, pat@, j),
        decreases s@.len() - i,
    {
        if pc.len() <= s.len() - i && occurs_at(s, i, &pc) {
            proof {
                lemma_find_seq(s@, pat@, i as int);
                assert(s@.skip(i as int).take(pat@.len() as int) =~= s@.subrange(i as int, i + pat@.len()));
            }
            return Some(i);
        }
        i += 1;
    }
    proof {
        lemma_find_seq(s@, pat@, i as int);
        assert(s@.skip(i as int) =~= Seq::<char>::empty());
        if pat@.len() == 0 {
            assert(s@.skip(i as int).take(0) =~= pat@);
        }
    }
    if pc.len() == 0 {
        proof {
            lemma_find_seq(s@, pat@, i as int);
        }
        return Some(i);
    }
    None
}

/// The pieces of `s` between the non-overlapping occurrences of `pat`,
/// scanned from the left, as `str::split` with a string pattern gives them.
pub open spec fn split_on(s: Seq<char>, pat: Seq<char>) -> Seq<Seq<char>>
    recommends
        pat.len() > 0,
    decreases s.len(),
{
    if pat.len() == 0 {
        seq![s]
    } else {
        match find_seq(s, pat) {
            Some(i) => if 0 <= i && i + pat.len() <= s.len() {
                seq![s.take(i)] + split_on(s.skip(i + pat.len()), pat)
            } else {
                seq![s]
            },
            None => seq![s],
        }
    }
}

/// `find_seq` gives a real occurrence.
pub proof fn lemma_find_seq_occurs(s: Seq<char>, pat: Seq<char>)
    ensures
        match find_seq(s, pat) {
            Some(i) => occurs_in_at(s, pat, i),
            None => true,
        },
    decreases s.len(),
{
    if pat.len() <= s.len() && s.take(pat.len() as int) == pat {
        assert(s.subrange(0, pat.len() as int) =~= s.take(pat.len() as int));
    } else if s.len() > 0 {
        lemma_find_seq_occurs(s.skip(1), pat);
        match find_seq(s.skip(1), pat) {
            Some(i) => {
                assert(s.skip(1).subrange(i, i + pat.len()) =~= s.subrange(i + 1, i + 1 + pat.len()));
            },
            None => {},
        }
    }
}

/// The pieces of `s` between the occurrences of `pat`.
pub fn split_on_chars(s: &Vec<char>, pat: &str) -> (out: Vec<Vec<char>>)
    requires
        pat@.len() > 0,
    ensures
        views(out@) == split_on(s@, pat@),
{
    let mut out: Vec<Vec<char>> = Vec::new();
    let mut rest: Vec<char> = s.clone();
    let plen = chars_of(pat).len();
    assert(s@ =~= rest@);
    loop
        invariant
            plen == pat@.len(),
            pat@.len() > 0,
            views(out@) + split_on(rest@, pat@) == split_on(s@, pat@),
        decreases rest@.len(),
    {
        match find_seq_chars(&rest, pat) {
            Some(i) => {
                proof {
                    lemma_find_seq_occurs(rest@, pat@);
                }
                let ghost old_rest = rest@;
                let tail = rest.split_off(i);
                let mut after: Vec<char> = Vec::new();
                let mut k: usize = plen;
                while k < tail.len()
                    invariant
                        plen <= k <= tail@.len(),
                        after@ == tail@.subrange(plen as int, k as int),
                    decreases tail@.len() - k,
                {
                    after.push(tail[k]);
                    assert(tail@.subrange(plen as int, k + 1) =~= tail@.subrange(plen as int, k as int).push(tail@[k as int]));
                    k += 1;
                }
                proof {
                    assert(rest@ =~= old_rest.take(i as int));
                    assert(after@ =~= old_rest.skip(i + pat@.len()));
                    let ghost before = views(out@);
                    assert(views(out@.push(rest)) =~= before.push(rest@));
                    assert(before.push(rest@) + split_on(after@, pat@) =~= before + split_on(old_rest, pat@));
                }
                out.push(rest);
                rest = after;
            },
            None => {
                proof {
                    let ghost before = views(out@);
                    assert(views(out@.push(rest)) =~= before.push(rest@));
                    assert(before.push(rest@) =~= before + split_on(rest@, pat@));
                }
                out.push(rest);
                return out;
            },
        }
    }
}

/// `find_char` gives the position of a real occurrence.
pub proof fn lemma_find_char_bounds(s: Seq<char>, c: char)
    ensures
        match find_char(s, c) {
            Some(i) => 0 <= i < s.len() && s[i] == c,
            None => true,
        },
    decreases s.len(),
{
    if s.len() > 0 && s[0] != c {
        lemma_find_char_bounds(s.skip(1), c);
    }
}

/// The decimal digits of `n`, with a leading `-` when it is negative.
pub open spec fn signed_decimal(n: int) -> Seq<char> {
    if n < 0 {
        seq!['-'] + decimal((-n) as nat)
    } else {
        decimal(n as nat)
    }
}

/// Appends the decimal digits of `n` to `v`, with a leading `-` when it is
/// negative.
pub fn push_signed_decimal(v: &mut Vec<char>, n: i64)
    ensures
        final(v)@ == old(v)@ + signed_decimal(n as int),
{
    if n < 0 {
        v.push('-');
        let m: u64 = if n == i64::MIN {
            9223372036854775808u64
        } else {
            (-n) as u64
        };
        push_decimal(v, m);
        assert(old(v)@.push('-') + decimal(m as nat) =~= old(v)@ + (seq!['-'] + decimal((-n) as nat)));
    } else {
        push_decimal(v, n as u64);
    }
}

/// Dropping the empty and `.` pieces of two runs of pieces is dropping
/// them from each.
pub proof fn lemma_named_only_concat(a: Seq<Seq<char>>, b: Seq<Seq<char>>)
    ensures
        named_only(a + b) == named_only(a) + named_only(b),
    decreases b.len(),
{
    if b.len() == 0 {
        assert(a + b =~= a);
        assert(named_only(a) + named_only(b) =~= named_only(a));
    } else {
        lemma_named_only_concat(a, b.drop_last());
        assert((a + b).drop_last() =~= a + b.drop_last());
        assert((a + b).last() == b.last());
        if b.last().len() > 0 && b.last() != "."@ {
            assert(named_only(a) + named_only(b.drop_last()).push(b.last()) =~= (named_only(a) + named_only(
                b.drop_last(),
            )).push(b.last()));
        }
    }
}

/// Trimming the end of `s` keeps a prefix of it.
pub proof fn lemma_trim_end_is_prefix(s: Seq<char>, sep: Sep)
    ensures
        trim_end_by(s, sep).len() <= s.len(),
        trim_end_by(s, sep) == s.take(trim_end_by(s, sep).len() as int),
    decreases s.len(),
{
    if s.len() > 0 && is_sep(sep, s.last()) {
        lemma_trim_end_is_prefix(s.drop_last(), sep);
        let t = trim_end_by(s.drop_last(), sep);
        assert(s.drop_last().take(t.len() as int) =~= s.take(t.len() as int));
    } else {
        assert(s.take(s.len() as int) =~= s);
    }
}
} // verus!
