//! Recognising a settings archive: the export of the settings directory is
//! a gzip-compressed tar archive whose entry paths are relative to that
//! directory, so one with a top-level `config.json` entry is taken for one.
use vstd::prelude::*;

use crate::text::{chars_of, named_only, named_segment_chars, named_segments, split_by, text_equals, views, Sep};

verus! {

/// Whether the archive entry path `p` names the top-level `config.json`:
/// a relative path whose only named component is `config.json`, however
/// many `./` pieces and slashes it is spelled with.
pub open spec fn is_top_level_config_path(p: Seq<char>) -> bool {
    &&& !(p.len() > 0 && p[0] == '/')
    &&& named_segments(p) == seq!["config.json"@]
}

/// Whether one of the archive entry paths `paths` names the top-level
/// `config.json`.
pub open spec fn lists_top_level_config(paths: Seq<Seq<char>>) -> bool {
    exists|i: int| 0 <= i < paths.len() && is_top_level_config_path(#[trigger] paths[i])
}

/// Whether the archive entry path `path` is the top-level `config.json`.
pub fn is_top_level_config_entry(path: &str) -> (b: bool)
    ensures
        b == is_top_level_config_path(path@),
{
    let cs = chars_of(path);
    if cs.len() > 0 && cs[0] == '/' {
        return false;
    }
    let segs = named_segment_chars(&cs);
    if segs.len() != 1 {
        assert(views(segs@).len() == segs@.len());
        return false;
    }
    let r = text_equals("config.json", &segs[0]);
    proof {
        assert(views(segs@)[0] == segs@[0]@);
        if r {
            assert(views(segs@) =~= seq!["config.json"@]);
        } else {
            assert(views(segs@)[0] != seq!["config.json"@][0]);
        }
    }
    r
}

/// Whether an archive with the entry paths `paths` looks like an export of
/// the settings directory: whether one entry is the top-level
/// `config.json`. Nothing is extracted; this is a guard against importing
/// an unrelated file, not a check of the archive's contents.
pub fn looks_like_config_archive(paths: &Vec<String>) -> (b: bool)
    ensures
        b == lists_top_level_config(paths@.map_values(|s: String| s@)),
{
    let ghost ps = paths@.map_values(|s: String| s@);
    let mut i: usize = 0;
    while i < paths.len()
        invariant
            i <= paths.len(),
            ps == paths@.map_values(|s: String| s@),
            forall|j: int| 0 <= j < i ==> !is_top_level_config_path(#[trigger] ps[j]),
        decreases paths.len() - i,
    {
        if is_top_level_config_entry(paths[i].as_str()) {
            assert(is_top_level_config_path(ps[i as int]));
            return true;
        }
        i = i + 1;
    }
    false
}


/// An entry path spelled with a leading `./` (as an archive of a directory
/// packed as `.` spells every path) is the top-level `config.json` exactly
/// when the same path without it is: the check does not depend on how the
/// archive's paths happen to be spelled.
pub proof fn lemma_leading_dot_slash_is_ignored(p: Seq<char>)
    requires
        !(p.len() > 0 && p[0] == '/'),
    ensures
        is_top_level_config_path("./"@ + p) == is_top_level_config_path(p),
{
    reveal_strlit("./");
    reveal_strlit(".");
    let s = "./"@ + p;
    assert(s[0] == '.');
    assert(s.skip(1) =~= seq!['/'] + p);
    assert((seq!['/'] + p).skip(1) =~= p);
    assert(split_by(seq!['/'] + p, Sep::Char('/')) == seq![Seq::<char>::empty()] + split_by(p, Sep::Char('/')));
    assert(split_by(s, Sep::Char('/')) =~= seq![seq!['.']] + split_by(p, Sep::Char('/')));
    crate::text::lemma_named_only_concat(seq![seq!['.']], split_by(p, Sep::Char('/')));
    assert(seq!['.'] =~= "."@);
    let dot: Seq<Seq<char>> = seq![seq!['.']];
    assert(dot.last() == "."@);
    assert(dot.drop_last() =~= Seq::<Seq<char>>::empty());
    assert(named_only(dot.drop_last()) =~= Seq::<Seq<char>>::empty());
    assert(named_only(dot) =~= Seq::<Seq<char>>::empty());
    assert(named_only(seq![seq!['.']]) + named_only(split_by(p, Sep::Char('/'))) =~= named_only(
        split_by(p, Sep::Char('/')),
    ));
}
} // verus!
