//! One saved widget instance per file: identity, position, appearance and
//! the widget kind's own opaque content, and the order they are rebuilt in.
use vstd::prelude::*;

use crate::appearance::{is_default_appearance, WidgetAppearance};
use crate::ordering::{key_leq, sort_by_key, sort_stable, SortKey};

verus! {

/// One saved widget instance. `id` is the file name it is saved under, not
/// part of the file's body.
#[derive(Debug, Clone)]
pub struct WidgetState {
    pub id: String,
    pub kind: String,
    pub page_index: usize,
    pub x: i32,
    pub y: i32,
    pub w: i32,
    pub h: i32,
    pub appearance: WidgetAppearance,
    pub content: serde_json::Value,
}

impl Default for WidgetState {
    fn default() -> (s: Self)
        ensures
            s.id@ == Seq::<char>::empty(),
            s.kind@ == Seq::<char>::empty(),
            s.page_index == 0,
            s.x == 0 && s.y == 0 && s.w == 0 && s.h == 0,
            is_default_appearance(s.appearance),
    {
        WidgetState {
            id: String::new(),
            kind: String::new(),
            page_index: 0,
            x: 0,
            y: 0,
            w: 0,
            h: 0,
            appearance: WidgetAppearance::default(),
            content: crate::json::json_null(),
        }
    }
}

impl SortKey for WidgetState {
    /// Page first, then top to bottom, then left to right.
    open spec fn sort_key(&self) -> (int, int, int) {
        (self.page_index as int, self.y as int, self.x as int)
    }

    fn key_le(&self, other: &Self) -> (b: bool) {
        self.page_index < other.page_index || (self.page_index == other.page_index && (self.y < other.y || (
        self.y == other.y && self.x <= other.x)))
    }
}

/// The states of the files that parsed, in file order, each with its file's
/// identity.
pub open spec fn parsed_states(files: Seq<(String, Option<WidgetState>)>) -> Seq<WidgetState>
    decreases files.len(),
{
    if files.len() == 0 {
        Seq::empty()
    } else {
        let prev = parsed_states(files.drop_last());
        match files.last().1 {
            Some(s) => prev.push(WidgetState { id: files.last().0, ..s }),
            None => prev,
        }
    }
}

/// Every saved widget, from the `(file stem, parse result)` of each saved
/// file: a file that did not parse is skipped, the others get their file's
/// stem as identity, and the result is sorted stably by page, then y, then
/// x, the order in which the grid is rebuilt.
pub fn load_all(files: Vec<(String, Option<WidgetState>)>) -> (states: Vec<WidgetState>)
    ensures
        states@ == sort_by_key(parsed_states(files@)),
{
    let ghost orig = files@;
    let mut rest = files;
    let mut kept: Vec<WidgetState> = Vec::new();
    let ghost mut n: int = 0;
    assert(orig.take(0) =~= Seq::<(String, Option<WidgetState>)>::empty());
    assert(orig.skip(0) =~= orig);
    while rest.len() > 0
        invariant
            0 <= n <= orig.len(),
            rest@ == orig.skip(n),
            kept@ == parsed_states(orig.take(n)),
        decreases rest@.len(),
    {
        let (id, parsed) = rest.remove(0);
        proof {
            assert((id, parsed) == orig[n]);
            assert(orig.take(n + 1).drop_last() =~= orig.take(n));
            assert(orig.take(n + 1).last() == orig[n]);
            assert(rest@ =~= orig.skip(n + 1));
        }
        match parsed {
            Some(mut state) => {
                state.id = id;
                kept.push(state);
            },
            None => {},
        }
        proof {
            n = n + 1;
        }
    }
    assert(orig.take(n) =~= orig);
    sort_stable(kept)
}

/// The state of an already-saved widget with its page index rewritten, for
/// when an earlier page was removed; every other field is kept, and the
/// identity is the one of its file.
pub fn update_page_index(state: WidgetState, id: &str, new_page_index: usize) -> (s: WidgetState)
    ensures
        s == (WidgetState { id: s.id, page_index: new_page_index, ..state }),
        s.id@ == id@,
{
    let mut s = state;
    s.id = id.to_string();
    s.page_index = new_page_index;
    s
}

} // verus!
