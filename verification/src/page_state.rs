//! One saved page per file: its index in the carousel, its optional custom
//! name and its opaque background, and the order pages are rebuilt in.
use vstd::prelude::*;

use crate::ordering::{sort_by_key, sort_stable, SortKey};

verus! {

/// One saved page. A page may exist with no widget on it. `id` is the file
/// name it is saved under, not part of the file's body.
#[derive(Debug, Clone)]
pub struct PageState {
    pub id: String,
    pub page_index: usize,
    pub name: Option<String>,
    pub background: serde_json::Value,
}

impl Default for PageState {
    fn default() -> (s: Self)
        ensures
            s.id@ == Seq::<char>::empty(),
            s.page_index == 0,
            s.name is None,
    {
        PageState { id: String::new(), page_index: 0, name: None, background: crate::json::json_null() }
    }
}

impl SortKey for PageState {
    /// Pages are ordered by their index alone.
    open spec fn sort_key(&self) -> (int, int, int) {
        (self.page_index as int, 0, 0)
    }

    fn key_le(&self, other: &Self) -> (b: bool) {
        self.page_index <= other.page_index
    }
}

/// The states of the files that parsed, in file order, each with its file's
/// identity.
pub open spec fn parsed_pages(files: Seq<(String, Option<PageState>)>) -> Seq<PageState>
    decreases files.len(),
{
    if files.len() == 0 {
        Seq::empty()
    } else {
        let prev = parsed_pages(files.drop_last());
        match files.last().1 {
            Some(s) => prev.push(PageState { id: files.last().0, ..s }),
            None => prev,
        }
    }
}

/// Every saved page, from the `(file stem, parse result)` of each saved
/// file: a file that did not parse is skipped, the others get their file's
/// stem as identity, and the result is sorted stably by page index.
pub fn load_all(files: Vec<(String, Option<PageState>)>) -> (pages: Vec<PageState>)
    ensures
        pages@ == sort_by_key(parsed_pages(files@)),
{
    let ghost orig = files@;
    let mut rest = files;
    let mut kept: Vec<PageState> = Vec::new();
    let ghost mut n: int = 0;
    assert(orig.take(0) =~= Seq::<(String, Option<PageState>)>::empty());
    assert(orig.skip(0) =~= orig);
    while rest.len() > 0
        invariant
            0 <= n <= orig.len(),
            rest@ == orig.skip(n),
            kept@ == parsed_pages(orig.take(n)),
        decreases rest@.len(),
    {
        let (id, parsed) = rest.remove(0);
        proof {
            assert((id, parsed) == orig[n]);
            assert(orig.take(n + 1).drop_last() =~= orig.take(n));
            assert(orig.take(n + 1).last() == orig[n]);
            assert(rest@ =~= orig.skip(n + 1));
        }
        match parsed {
            Some(mut state) => {
                state.id = id;
                kept.push(state);
            },
            None => {},
        }
        proof {
            n = n + 1;
        }
    }
    assert(orig.take(n) =~= orig);
    sort_stable(kept)
}

} // verus!
