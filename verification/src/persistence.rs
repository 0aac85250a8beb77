//! Naming of the files that saved states are written to and read back from.
use vstd::prelude::*;

use crate::text::{concat, join_path, path_join};

verus! {

/// The sibling file a state is first written to before being renamed into
/// place, so that a crash mid-write never leaves a half-written file.
pub fn tmp_path(path: &str) -> (p: String)
    ensures
        p@ == path@ + ".tmp"@,
{
    concat(path, ".tmp")
}

/// The file `<dir>/<id>.json` that the state with identity `id` is saved to.
pub fn state_file(dir: &str, id: &str) -> (p: String)
    ensures
        p@ == path_join(dir@, id@ + ".json"@),
{
    let name = concat(id, ".json");
    join_path(dir, name.as_str())
}


/// The position of the last `.` in `n`.
pub open spec fn last_dot(n: Seq<char>) -> Option<int>
    decreases n.len(),
{
    if n.len() == 0 {
        None
    } else if n.last() == '.' {
        Some(n.len() - 1)
    } else {
        last_dot(n.drop_last())
    }
}

/// The identity stored in the file named `name` of a state directory: the
/// name without its extension, for a file whose extension is `json` (the
/// text after the last `.`, when that `.` is not the first character).
pub open spec fn json_stem(name: Seq<char>) -> Option<Seq<char>> {
    match last_dot(name) {
        Some(i) => if i > 0 && name.skip(i + 1) == "json"@ {
            Some(name.take(i))
        } else {
            None
        },
        None => None,
    }
}

/// The identity of the saved state in the file named `file_name`, or
/// `None` for a file that is not a `.json` file and is skipped.
pub fn json_file_stem(file_name: &str) -> (r: Option<String>)
    ensures
        match r {
            Some(s) => json_stem(file_name@) == Some(s@),
            None => json_stem(file_name@) is None,
        },
{
    let cs = crate::text::chars_of(file_name);
    let mut i = cs.len();
    assert(cs@.take(i as int) =~= cs@);
    while i > 0 && cs[i - 1] != '.'
        invariant
            i <= cs@.len(),
            cs@ == file_name@,
            last_dot(cs@) == last_dot(cs@.take(i as int)),
        decreases i,
    {
        assert(cs@.take(i as int).drop_last() =~= cs@.take(i - 1));
        i -= 1;
    }
    if i <= 1 {
        proof {
            if i == 1 {
                assert(cs@.take(1).last() == cs@[0]);
                assert(last_dot(cs@.take(1)) == Some(0int));
            } else {
                assert(cs@.take(0).len() == 0);
            }
        }
        return None;
    }
    let dot = i - 1;
    assert(cs@.take(i as int).last() == '.');
    assert(last_dot(cs@) == Some(dot as int));
    let mut ext: Vec<char> = Vec::new();
    let mut k = i;
    while k < cs.len()
        invariant
            i <= k <= cs@.len(),
            ext@ == cs@.subrange(i as int, k as int),
        decreases cs@.len() - k,
    {
        ext.push(cs[k]);
        assert(cs@.subrange(i as int, k + 1) =~= cs@.subrange(i as int, k as int).push(cs@[k as int]));
        k += 1;
    }
    assert(ext@ =~= cs@.skip(i as int));
    if !crate::text::text_equals("json", &ext) {
        return None;
    }
    let mut stem: Vec<char> = Vec::new();
    let mut j: usize = 0;
    while j < dot
        invariant
            j <= dot,
            dot < cs@.len(),
            stem@ == cs@.take(j as int),
        decreases dot - j,
    {
        stem.push(cs[j]);
        assert(cs@.take(j + 1) =~= cs@.take(j as int).push(cs@[j as int]));
        j += 1;
    }
    Some(crate::text::string_of(&stem))
}

/// A state saved under the identity `id` (a non-empty name, in the file
/// `<id>.json`) reads back with that identity from its file's name.
pub proof fn lemma_saved_identity_reads_back(id: Seq<char>)
    requires
        id.len() > 0,
    ensures
        json_stem(id + ".json"@) == Some(id),
{
    reveal_strlit(".json");
    reveal_strlit("json");
    let n = id + ".json"@;
    assert(n.len() == id.len() + 5);
    assert(n[id.len() as int] == '.');
    assert(n.drop_last().drop_last().drop_last().drop_last() =~= id + seq!['.']);
    assert(last_dot(n) == Some(id.len() as int)) by {
        reveal_with_fuel(last_dot, 6);
        assert(n.last() == 'n');
        assert(n.drop_last().last() == 'o');
        assert(n.drop_last().drop_last().last() == 's');
        assert(n.drop_last().drop_last().drop_last().last() == 'j');
        assert((id + seq!['.']).last() == '.');
    }
    assert(n.skip(id.len() as int + 1) =~= "json"@);
    assert(n.take(id.len() as int) =~= id);
}
} // verus!
