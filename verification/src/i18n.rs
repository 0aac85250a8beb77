//! Translation catalogs: one language's flat `{key: text}` strings, and the
//! lookup with fallback and `{name}` placeholder substitution.
use vstd::prelude::*;

use crate::ordering::{key_before, text_order_indices};
use crate::persistence::{json_file_stem, json_stem};
use crate::text::{chars_of, push_str, replace_all, replace_chars, string_of, text_equals, views};

verus! {

/// The mapping that a list of `(key, text)` entries denotes; a later entry
/// wins over an earlier one with the same key.
pub open spec fn entries_map(e: Seq<(Seq<char>, Seq<char>)>) -> Map<Seq<char>, Seq<char>>
    decreases e.len(),
{
    if e.len() == 0 {
        Map::empty()
    } else {
        entries_map(e.drop_last()).insert(e.last().0, e.last().1)
    }
}

pub open spec fn pair_views(e: Seq<(String, String)>) -> Seq<(Seq<char>, Seq<char>)> {
    e.map_values(|p: (String, String)| (p.0@, p.1@))
}

/// What the JSON text `json` parses to as an object of strings: its
/// entries, or `None` when it is not such an object.
pub uninterp spec fn parsed_string_map(json: Seq<char>) -> Option<Seq<(Seq<char>, Seq<char>)>>;

/// Parses `json` as a JSON object whose values are all strings, with
/// `serde_json::from_str` into a `BTreeMap<String, String>`. Claims only
/// that the entries handed back are what `parsed_string_map` names for the
/// text, and `None` exactly when the text does not parse as such an object.
#[verifier::external_body]
fn parse_string_map(json: &str) -> (r: Option<Vec<(String, String)>>)
    ensures
        match r {
            Some(v) => parsed_string_map(json@) == Some(pair_views(v@)),
            None => parsed_string_map(json@) is None,
        },
{
    serde_json::from_str::<std::collections::BTreeMap<String, String>>(json).ok().map(|m| m.into_iter().collect())
}

/// One language's strings, including the special `_language_name` key
/// naming the language in its own tongue.
#[derive(Debug, Clone)]
pub struct Catalog {
    entries: Vec<(String, String)>,
}

impl View for Catalog {
    type V = Map<Seq<char>, Seq<char>>;

    closed spec fn view(&self) -> Map<Seq<char>, Seq<char>> {
        entries_map(pair_views(self.entries@))
    }
}

/// The last entry with key `k` is the one `entries_map` keeps.
proof fn lemma_entries_map_last(e: Seq<(Seq<char>, Seq<char>)>, k: Seq<char>, j: int)
    requires
        0 <= j < e.len(),
        e[j].0 == k,
        forall|i: int| j < i < e.len() ==> e[i].0 != k,
    ensures
        entries_map(e).contains_key(k),
        entries_map(e)[k] == e[j].1,
    decreases e.len(),
{
    if j < e.len() - 1 {
        lemma_entries_map_last(e.drop_last(), k, j);
    }
}

/// A key absent from every entry is absent from `entries_map`.
proof fn lemma_entries_map_absent(e: Seq<(Seq<char>, Seq<char>)>, k: Seq<char>)
    requires
        forall|i: int| 0 <= i < e.len() ==> e[i].0 != k,
    ensures
        !entries_map(e).contains_key(k),
    decreases e.len(),
{
    if e.len() > 0 {
        lemma_entries_map_absent(e.drop_last(), k);
    }
}

impl Default for Catalog {
    fn default() -> (c: Self)
        ensures
            c@ == Map::<Seq<char>, Seq<char>>::empty(),
    {
        Catalog { entries: Vec::new() }
    }
}

impl Catalog {
    /// The catalog a locale file's JSON text denotes; an empty one when the
    /// text does not parse as an object of strings.
    pub fn from_json_str(json: &str) -> (c: Self)
        ensures
            c@ == match parsed_string_map(json@) {
                Some(e) => entries_map(e),
                None => Map::empty(),
            },
    {
        match parse_string_map(json) {
            Some(entries) => Catalog { entries },
            None => Catalog::default(),
        }
    }

    /// The text stored under `key`, if any.
    pub fn get(&self, key: &str) -> (r: Option<&str>)
        ensures
            match r {
                Some(t) => self@.contains_key(key@) && self@[key@] == t@,
                None => !self@.contains_key(key@),
            },
    {
        let k = chars_of(key);
        let ghost e = pair_views(self.entries@);
        let mut i = self.entries.len();
        while i > 0
            invariant
                i <= self.entries@.len(),
                e == pair_views(self.entries@),
                k@ == key@,
                forall|j: int| i <= j < e.len() ==> e[j].0 != key@,
            decreases i,
        {
            i -= 1;
            if text_equals(self.entries[i].0.as_str(), &k) {
                proof {
                    lemma_entries_map_last(e, key@, i as int);
                }
                return Some(self.entries[i].1.as_str());
            }
        }
        proof {
            lemma_entries_map_absent(e, key@);
        }
        None
    }

    /// The language's own name for itself, from the `_language_name` key.
    pub fn language_name(&self) -> (r: Option<&str>)
        ensures
            match r {
                Some(t) => self@.contains_key("_language_name"@) && self@["_language_name"@] == t@,
                None => !self@.contains_key("_language_name"@),
            },
    {
        self.get("_language_name")
    }
}

/// The text shown for `key`: the active language's, else the fallback
/// language's, else the raw key itself, so that a missing translation is
/// visible.
pub open spec fn lookup_text(active: Map<Seq<char>, Seq<char>>, fallback: Map<Seq<char>, Seq<char>>, key: Seq<char>) -> Seq<char> {
    if active.contains_key(key) {
        active[key]
    } else if fallback.contains_key(key) {
        fallback[key]
    } else {
        key
    }
}

/// The placeholder `{name}`.
pub open spec fn placeholder(name: Seq<char>) -> Seq<char> {
    seq!['{'] + name + seq!['}']
}

/// `text` with each `{name}` placeholder replaced by its value, one pair of
/// `args` after the other.
pub open spec fn substitute(text: Seq<char>, args: Seq<(Seq<char>, Seq<char>)>) -> Seq<char>
    decreases args.len(),
{
    if args.len() == 0 {
        text
    } else {
        replace_all(substitute(text, args.drop_last()), placeholder(args.last().0), args.last().1)
    }
}

pub open spec fn arg_views(args: Seq<(&str, &str)>) -> Seq<(Seq<char>, Seq<char>)> {
    args.map_values(|a: (&str, &str)| (a.0@, a.1@))
}

/// Looks `key` up in `active`, then `fallback`, then falls back to the raw
/// key, and substitutes the `{name}` placeholders of `args` in order.
pub fn translate(active: &Catalog, fallback: &Catalog, key: &str, args: &[(&str, &str)]) -> (out: String)
    ensures
        out@ == substitute(lookup_text(active@, fallback@, key@), arg_views(args@)),
{
    let text = match active.get(key) {
        Some(t) => t,
        None => match fallback.get(key) {
            Some(t) => t,
            None => key,
        },
    };
    let mut result = chars_of(text);
    let ghost av = arg_views(args@);
    let mut i: usize = 0;
    assert(av.take(0) =~= Seq::<(Seq<char>, Seq<char>)>::empty());
    while i < args.len()
        invariant
            i <= args@.len(),
            av == arg_views(args@),
            result@ == substitute(lookup_text(active@, fallback@, key@), av.take(i as int)),
        decreases args@.len() - i,
    {
        let (name, value) = args[i];
        let mut pat: Vec<char> = Vec::new();
        pat.push('{');
        push_str(&mut pat, name);
        pat.push('}');
        assert(pat@ =~= placeholder(name@));
        let rep = chars_of(value);
        result = replace_chars(&result, &pat, &rep);
        assert(av.take(i as int + 1).drop_last() =~= av.take(i as int));
        assert(av.take(i as int + 1).last() == (name@, value@));
        i += 1;
    }
    assert(av.take(args@.len() as int) =~= av);
    string_of(&result)
}

/// Without placeholder values, the translation is exactly the looked-up
/// text: active language, then fallback, then the raw key.
pub proof fn lemma_translate_without_args_is_lookup(
    active: Map<Seq<char>, Seq<char>>,
    fallback: Map<Seq<char>, Seq<char>>,
    key: Seq<char>,
)
    ensures
        substitute(lookup_text(active, fallback, key), Seq::empty()) == lookup_text(active, fallback, key),
        active.contains_key(key) ==> lookup_text(active, fallback, key) == active[key],
        !active.contains_key(key) && fallback.contains_key(key) ==> lookup_text(active, fallback, key)
            == fallback[key],
        !active.contains_key(key) && !fallback.contains_key(key) ==> lookup_text(active, fallback, key) == key,
{
}

/// The entry a locale file contributes to the language list: its code, and
/// the name it gives itself, or the code when it names itself nothing.
pub fn language_entry(code: &str, catalog: &Catalog) -> (r: (String, String))
    ensures
        r.0@ == code@,
        r.1@ == (if catalog@.contains_key("_language_name"@) {
            catalog@["_language_name"@]
        } else {
            code@
        }),
{
    let name = match catalog.language_name() {
        Some(n) => n,
        None => code,
    };
    (code.to_string(), name.to_string())
}


/// A locale file as the directory listing gives it: its file name, and its
/// text (`None` when it could not be read).
pub open spec fn locale_file_view(f: (String, Option<String>)) -> (Seq<char>, Option<Seq<char>>) {
    (
        f.0@,
        match f.1 {
            Some(t) => Some(t@),
            None => None,
        },
    )
}

pub open spec fn locale_files_view(fs: Seq<(String, Option<String>)>) -> Seq<(Seq<char>, Option<Seq<char>>)> {
    fs.map_values(|f: (String, Option<String>)| locale_file_view(f))
}

/// Whether the locale file `f` gives a language: a `.json` file that could
/// be read and whose text parses as an object of strings.
pub open spec fn locale_kept(f: (Seq<char>, Option<Seq<char>>)) -> bool {
    &&& json_stem(f.0) is Some
    &&& match f.1 {
        Some(t) => parsed_string_map(t) is Some,
        None => false,
    }
}

/// The language entry of a kept locale file: its code (the file name
/// without `.json`) and the name its catalog gives itself, else the code.
pub open spec fn locale_entry(f: (Seq<char>, Option<Seq<char>>)) -> (Seq<char>, Seq<char>) {
    let code = json_stem(f.0).unwrap();
    let m = entries_map(parsed_string_map(f.1.unwrap()).unwrap());
    (
        code,
        if m.contains_key("_language_name"@) {
            m["_language_name"@]
        } else {
            code
        },
    )
}

/// The file names of `fs`.
pub open spec fn locale_names(fs: Seq<(Seq<char>, Option<Seq<char>>)>) -> Seq<Seq<char>> {
    fs.map_values(|f: (Seq<char>, Option<Seq<char>>)| f.0)
}

/// Whether `ix` lists the kept files of `fs`, each once, ordered by file
/// name in code-point order (files of equal name in their own order).
pub open spec fn locale_order(fs: Seq<(Seq<char>, Option<Seq<char>>)>, ix: Seq<int>) -> bool {
    &&& forall|k: int| 0 <= k < ix.len() ==> 0 <= #[trigger] ix[k] < fs.len() && locale_kept(fs[ix[k]])
    &&& forall|i: int| 0 <= i < fs.len() && locale_kept(#[trigger] fs[i]) ==> exists|k: int| 0 <= k < ix.len() && ix[k] == i
    &&& forall|a: int, b: int| 0 <= a < b < ix.len() ==> key_before(locale_names(fs), #[trigger] ix[a], #[trigger] ix[b])
}

/// The `(code, name)` language list of the locale files `files` (file name
/// and text, `None` for an unreadable one), sorted by file name: a file
/// that is not `.json`, cannot be read or does not parse is skipped.
pub fn language_list(files: &Vec<(String, Option<String>)>) -> (r: Vec<(String, String)>)
    ensures
        exists|ix: Seq<int>|
            #[trigger] locale_order(locale_files_view(files@), ix) && r@.len() == ix.len() && forall|k: int|
                0 <= k < r@.len() ==> (#[trigger] r@[k].0@, r@[k].1@) == locale_entry(
                    locale_files_view(files@)[ix[k]],
                ),
{
    let ghost fv = locale_files_view(files@);
    let mut keys: Vec<Vec<char>> = Vec::new();
    let mut keep: Vec<bool> = Vec::new();
    let mut loaded: Vec<Option<(String, Catalog)>> = Vec::new();
    let mut n: usize = 0;
    while n < files.len()
        invariant
            n <= files@.len(),
            fv == locale_files_view(files@),
            keys@.len() == n,
            keep@.len() == n,
            loaded@.len() == n,
            forall|j: int| 0 <= j < n ==> (#[trigger] keys@[j])@ == fv[j].0,
            forall|j: int| 0 <= j < n ==> #[trigger] keep@[j] == locale_kept(fv[j]),
            forall|j: int|
                0 <= j < n ==> match #[trigger] loaded@[j] {
                    Some((c, cat)) => locale_kept(fv[j]) && c@ == json_stem(fv[j].0).unwrap() && cat@
                        == entries_map(parsed_string_map(fv[j].1.unwrap()).unwrap()),
                    None => !locale_kept(fv[j]),
                },
        decreases files@.len() - n,
    {
        let name = files[n].0.as_str();
        assert(fv[n as int] == locale_file_view(files@[n as int]));
        keys.push(chars_of(name));
        let entry: Option<(String, Catalog)> = match json_file_stem(name) {
            Some(code) => match &files[n].1 {
                Some(text) => match parse_string_map(text.as_str()) {
                    Some(entries) => Some((code, Catalog { entries })),
                    None => None,
                },
                None => None,
            },
            None => None,
        };
        let kept = match &entry {
            Some(_) => true,
            None => false,
        };
        keep.push(kept);
        loaded.push(entry);
        n += 1;
    }
    let order = text_order_indices(&keys, &keep);
    assert(views(keys@) =~= locale_names(fv));
    let mut r: Vec<(String, String)> = Vec::new();
    let mut k: usize = 0;
    while k < order.len()
        invariant
            k <= order@.len(),
            fv == locale_files_view(files@),
            loaded@.len() == fv.len(),
            keep@.len() == fv.len(),
            forall|q: int| 0 <= q < order@.len() ==> #[trigger] order@[q] < fv.len() && keep@[order@[q] as int],
            forall|j: int| 0 <= j < fv.len() ==> #[trigger] keep@[j] == locale_kept(fv[j]),
            forall|j: int|
                0 <= j < fv.len() ==> match #[trigger] loaded@[j] {
                    Some((c, cat)) => locale_kept(fv[j]) && c@ == json_stem(fv[j].0).unwrap() && cat@
                        == entries_map(parsed_string_map(fv[j].1.unwrap()).unwrap()),
                    None => !locale_kept(fv[j]),
                },
            r@.len() == k,
            forall|q: int| 0 <= q < k ==> (#[trigger] r@[q].0@, r@[q].1@) == locale_entry(fv[order@[q] as int]),
        decreases order@.len() - k,
    {
        let i = order[k];
        assert(keep@[i as int]);
        match &loaded[i] {
            Some((code, cat)) => {
                let e = language_entry(code.as_str(), cat);
                r.push(e);
            },
            None => {
                assert(false);
            },
        }
        k += 1;
    }
    proof {
        let ix = order@.map_values(|u: usize| u as int);
        assert forall|q: int| 0 <= q < ix.len() implies 0 <= #[trigger] ix[q] < fv.len() && locale_kept(fv[ix[q]]) by {
            assert(keep@[order@[q] as int]);
        }
        assert forall|i: int| 0 <= i < fv.len() && locale_kept(#[trigger] fv[i]) implies exists|q: int|
            0 <= q < ix.len() && ix[q] == i by {
            assert(keep@[i]);
            let q = choose|q: int| 0 <= q < order@.len() && order@[q] == i;
            assert(ix[q] == i);
        }
        assert forall|a: int, b: int| 0 <= a < b < ix.len() implies key_before(
            locale_names(fv),
            #[trigger] ix[a],
            #[trigger] ix[b],
        ) by {
            assert(key_before(views(keys@), order@[a] as int, order@[b] as int));
        }
        assert(locale_order(fv, ix));
        assert forall|q: int| 0 <= q < r@.len() implies (#[trigger] r@[q].0@, r@[q].1@) == locale_entry(fv[ix[q]]) by {}
    }
    r
}

} // verus!
