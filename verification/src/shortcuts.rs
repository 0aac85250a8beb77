//! The app-shortcuts widget's fixed grid of icon cells.
use vstd::prelude::*;

use crate::agenda::text_lt;
use crate::ordering::{key_before, text_order_indices};
use crate::sensors::{lowercase_of, to_lowercase};
use crate::text::{chars_of, contains_seq, find_seq_chars, string_of, trim_by, trim_chars, views, Sep};

verus! {

pub const GRID_COLS: i32 = 5;
pub const GRID_ROWS: i32 = 5;

pub open spec fn occupied_cell(occupied: Seq<(i32, i32)>, col: int, row: int) -> bool {
    exists|i: int| 0 <= i < occupied.len() && occupied[i].0 == col && #[trigger] occupied[i].1 == row
}

/// The cell of index `k` in reading order: rows top to bottom, columns left
/// to right.
pub open spec fn cell_at(k: int) -> (int, int) {
    (k % GRID_COLS as int, k / GRID_COLS as int)
}

/// Whether `(col, row)` lies on the grid.
pub fn in_grid(col: i32, row: i32) -> (b: bool)
    ensures
        b == (0 <= col < GRID_COLS && 0 <= row < GRID_ROWS),
{
    0 <= col && col < GRID_COLS && 0 <= row && row < GRID_ROWS
}

fn is_occupied(occupied: &[(i32, i32)], col: i32, row: i32) -> (b: bool)
    ensures
        b == occupied_cell(occupied@, col as int, row as int),
{
    let mut i: usize = 0;
    while i < occupied.len()
        invariant
            i <= occupied@.len(),
            forall|j: int| 0 <= j < i ==> !(occupied@[j].0 == col && #[trigger] occupied@[j].1 == row),
        decreases occupied@.len() - i,
    {
        if occupied[i].0 == col && occupied[i].1 == row {
            return true;
        }
        i += 1;
    }
    false
}

/// The first cell not in `occupied`, in reading order; `None` when every
/// cell is taken. New icons land here, like a dock arranging its icons.
pub fn first_free_cell(occupied: &[(i32, i32)]) -> (r: Option<(i32, i32)>)
    ensures
        match r {
            Some(c) => exists|k: int|
                0 <= k < GRID_COLS * GRID_ROWS && #[trigger] cell_at(k) == (c.0 as int, c.1 as int)
                    && !occupied_cell(occupied@, c.0 as int, c.1 as int) && forall|k2: int|
                    0 <= k2 < k ==> occupied_cell(occupied@, #[trigger] cell_at(k2).0, cell_at(k2).1),
            None => forall|k: int|
                0 <= k < GRID_COLS * GRID_ROWS ==> occupied_cell(occupied@, #[trigger] cell_at(k).0, cell_at(k).1),
        },
{
    let mut row: i32 = 0;
    while row < GRID_ROWS
        invariant
            0 <= row <= GRID_ROWS,
            forall|k2: int| 0 <= k2 < row * GRID_COLS ==> occupied_cell(occupied@, #[trigger] cell_at(k2).0, cell_at(k2).1),
        decreases GRID_ROWS - row,
    {
        let mut col: i32 = 0;
        while col < GRID_COLS
            invariant
                0 <= row < GRID_ROWS,
                0 <= col <= GRID_COLS,
                forall|k2: int|
                    0 <= k2 < row * GRID_COLS + col ==> occupied_cell(occupied@, #[trigger] cell_at(k2).0, cell_at(k2).1),
            decreases GRID_COLS - col,
        {
            if !is_occupied(occupied, col, row) {
                assert(cell_at(row * GRID_COLS + col) == (col as int, row as int));
                return Some((col, row));
            }
            assert(cell_at(row * GRID_COLS + col) == (col as int, row as int));
            col += 1;
        }
        row += 1;
    }
    None
}

/// Whether a saved shortcut's kind is one the widget knows.
pub fn is_known_kind(kind: &str) -> (b: bool)
    ensures
        b == (kind@ == "app"@ || kind@ == "custom"@),
{
    let k = crate::text::chars_of(kind);
    crate::text::text_equals("app", &k) || crate::text::text_equals("custom", &k)
}

/// The name shown under a shortcut: its own label when non-empty, else the
/// installed app's name, else its app id, else its command, else nothing.
pub fn shortcut_display_name(
    label: &str,
    app_name: Option<&str>,
    app_id: Option<&str>,
    command: Option<&str>,
) -> (r: String)
    ensures
        r@ == (if label@.len() > 0 {
            label@
        } else {
            match app_name {
                Some(n) => n@,
                None => match app_id {
                    Some(a) => a@,
                    None => match command {
                        Some(c) => c@,
                        None => Seq::empty(),
                    },
                },
            }
        }),
{
    if crate::text::chars_of(label).len() > 0 {
        return label.to_string();
    }
    match app_name {
        Some(n) => n.to_string(),
        None => match app_id {
            Some(a) => a.to_string(),
            None => match command {
                Some(c) => c.to_string(),
                None => String::new(),
            },
        },
    }
}


/// One shortcut on the grid: where it sits, what it launches and how it
/// is labelled and drawn. Only `app` shortcuts launch anything yet.
#[derive(Debug, Clone)]
pub struct ShortcutIcon {
    pub col: i32,
    pub row: i32,
    pub kind: String,
    pub app_id: Option<String>,
    pub command: Option<String>,
    pub label: String,
    pub icon_name: Option<String>,
    pub icon_path: Option<String>,
}

pub open spec fn opt_str(s: Option<&str>) -> Option<Seq<char>> {
    match s {
        Some(t) => Some(t@),
        None => None,
    }
}

pub open spec fn opt_string(s: Option<String>) -> Option<Seq<char>> {
    match s {
        Some(t) => Some(t@),
        None => None,
    }
}

fn owned(s: Option<&str>) -> (r: Option<String>)
    ensures
        opt_string(r) == opt_str(s),
{
    match s {
        Some(t) => Some(crate::text::string_of(&crate::text::chars_of(t))),
        None => None,
    }
}

impl ShortcutIcon {
    /// A new shortcut to the installed app `app_id`, at `(col, row)`.
    pub fn new_app(col: i32, row: i32, app_id: String) -> (r: ShortcutIcon)
        ensures
            r.col == col && r.row == row,
            r.kind@ == "app"@,
            r.app_id == Some(app_id),
            r.command is None && r.icon_name is None && r.icon_path is None,
            r.label@ == Seq::<char>::empty(),
    {
        ShortcutIcon {
            col,
            row,
            kind: crate::text::string_of(&crate::text::chars_of("app")),
            app_id: Some(app_id),
            command: None,
            label: String::new(),
            icon_name: None,
            icon_path: None,
        }
    }

    /// The shortcut a saved entry describes, from its fields (each `None`
    /// when absent or not of the right type): none without a position or
    /// a kind, or with a kind the widget does not know; a missing label is
    /// empty. The saved numbers are cut to `i32`.
    pub fn from_saved(
        col: Option<i64>,
        row: Option<i64>,
        kind: Option<&str>,
        app_id: Option<&str>,
        command: Option<&str>,
        label: Option<&str>,
        icon_name: Option<&str>,
        icon_path: Option<&str>,
    ) -> (r: Option<ShortcutIcon>)
        ensures
            match r {
                Some(icon) => col is Some && row is Some && kind is Some && (kind->0@ == "app"@ || kind->0@
                    == "custom"@) && icon.col == col->0 as i32 && icon.row == row->0 as i32 && icon.kind@
                    == kind->0@ && opt_string(icon.app_id) == opt_str(app_id) && opt_string(icon.command)
                    == opt_str(command) && icon.label@ == (match label {
                    Some(l) => l@,
                    None => Seq::<char>::empty(),
                }) && opt_string(icon.icon_name) == opt_str(icon_name) && opt_string(icon.icon_path) == opt_str(
                    icon_path,
                ),
                None => col is None || row is None || kind is None || !(kind->0@ == "app"@ || kind->0@
                    == "custom"@),
            },
    {
        let c = match col {
            Some(c) => c,
            None => return None,
        };
        let r = match row {
            Some(r) => r,
            None => return None,
        };
        let k = match kind {
            Some(k) => k,
            None => return None,
        };
        if !is_known_kind(k) {
            return None;
        }
        let label = match label {
            Some(l) => crate::text::string_of(&crate::text::chars_of(l)),
            None => String::new(),
        };
        Some(
            ShortcutIcon {
                col: #[verifier::truncate]
                (c as i32),
                row: #[verifier::truncate]
                (r as i32),
                kind: crate::text::string_of(&crate::text::chars_of(k)),
                app_id: owned(app_id),
                command: owned(command),
                label,
                icon_name: owned(icon_name),
                icon_path: owned(icon_path),
            },
        )
    }
}

/// Whether the cell `(col, row)` is taken by one of `icons`.
pub open spec fn cell_taken(icons: Seq<ShortcutIcon>, col: i32, row: i32) -> bool {
    exists|i: int| 0 <= i < icons.len() && (#[trigger] icons[i]).col == col && icons[i].row == row
}

/// The saved icons that are placed, in order: one lying off the grid, or
/// on a cell an earlier one already took, is left out.
pub open spec fn placed_icons(saved: Seq<ShortcutIcon>) -> Seq<ShortcutIcon>
    decreases saved.len(),
{
    if saved.len() == 0 {
        Seq::empty()
    } else {
        let before = placed_icons(saved.drop_last());
        let icon = saved.last();
        if 0 <= icon.col < GRID_COLS && 0 <= icon.row < GRID_ROWS && !cell_taken(before, icon.col, icon.row) {
            before.push(icon)
        } else {
            before
        }
    }
}

/// Places the saved icons `saved` on the grid, in order.
pub fn place_saved_icons(saved: Vec<ShortcutIcon>) -> (r: Vec<ShortcutIcon>)
    ensures
        r@ == placed_icons(saved@),
{
    let ghost all = saved@;
    let mut rest = saved;
    let mut placed: Vec<ShortcutIcon> = Vec::new();
    let ghost mut n: int = 0;
    assert(all.take(0) =~= Seq::<ShortcutIcon>::empty());
    assert(all.skip(0) =~= all);
    while rest.len() > 0
        invariant
            0 <= n <= all.len(),
            rest@ == all.skip(n),
            placed@ == placed_icons(all.take(n)),
        decreases rest@.len(),
    {
        let icon = rest.remove(0);
        proof {
            assert(icon == all[n]);
            assert(all.take(n + 1).drop_last() =~= all.take(n));
            assert(all.take(n + 1).last() == all[n]);
            assert(rest@ =~= all.skip(n + 1));
        }
        if in_grid(icon.col, icon.row) {
            let mut j: usize = 0;
            let mut taken = false;
            while j < placed.len()
                invariant
                    j <= placed@.len(),
                    taken == (exists|q: int| 0 <= q < j && (#[trigger] placed@[q]).col == icon.col && placed@[q].row == icon.row),
                decreases placed@.len() - j,
            {
                if placed[j].col == icon.col && placed[j].row == icon.row {
                    taken = true;
                }
                j += 1;
            }
            if !taken {
                placed.push(icon);
            }
        }
        proof {
            n = n + 1;
        }
    }
    assert(all.take(n) =~= all);
    placed
}

/// Every placed icon lies on the grid, and no two share a cell.
pub proof fn lemma_placed_icons_fit_one_per_cell(saved: Seq<ShortcutIcon>)
    ensures
        forall|i: int|
            0 <= i < placed_icons(saved).len() ==> 0 <= (#[trigger] placed_icons(saved)[i]).col < GRID_COLS && 0
                <= placed_icons(saved)[i].row < GRID_ROWS,
        forall|i: int, j: int|
            0 <= i < j < placed_icons(saved).len() ==> !((#[trigger] placed_icons(saved)[i]).col
                == (#[trigger] placed_icons(saved)[j]).col && placed_icons(saved)[i].row == placed_icons(saved)[j].row),
    decreases saved.len(),
{
    if saved.len() > 0 {
        lemma_placed_icons_fit_one_per_cell(saved.drop_last());
        let before = placed_icons(saved.drop_last());
        let icon = saved.last();
        if 0 <= icon.col < GRID_COLS && 0 <= icon.row < GRID_ROWS && !cell_taken(before, icon.col, icon.row) {
            let after = before.push(icon);
            assert forall|i: int, j: int| 0 <= i < j < after.len() implies !((#[trigger] after[i]).col
                == (#[trigger] after[j]).col && after[i].row == after[j].row) by {
                if j == before.len() && after[i].col == icon.col && after[i].row == icon.row {
                    assert(before[i] == after[i]);
                    assert(cell_taken(before, icon.col, icon.row));
                }
                if j < before.len() {
                    assert(after[i] == before[i] && after[j] == before[j]);
                }
            }
            assert forall|i: int| 0 <= i < after.len() implies 0 <= (#[trigger] after[i]).col < GRID_COLS && 0
                <= after[i].row < GRID_ROWS by {
                if i < before.len() {
                    assert(after[i] == before[i]);
                }
            }
        }
    }
}

/// The text an app list is searched for: the query trimmed, then
/// lowercased.
pub open spec fn app_query(query: Seq<char>) -> Seq<char> {
    lowercase_of(trim_by(query, Sep::Whitespace))
}

/// Whether the app named `name` is listed for the search text `q`: every
/// app for an empty search, else those whose lowercased name holds it.
pub open spec fn app_listed(name: Seq<char>, q: Seq<char>) -> bool {
    q.len() == 0 || contains_seq(lowercase_of(name), q)
}

/// Whether app `a` of `names` is listed above app `b`: by lowercased name
/// in code-point order, and in their own order when those are equal.
pub open spec fn app_before(names: Seq<String>, a: int, b: int) -> bool {
    ||| text_lt(lowercase_of(names[a]@), lowercase_of(names[b]@))
    ||| (lowercase_of(names[a]@) == lowercase_of(names[b]@) && a < b)
}

/// The apps of `names` an app picker lists for the search `query`, as
/// indices into `names`: exactly those listed for the search, sorted by
/// lowercased name (ties in their own order).
pub fn visible_app_indices(names: &Vec<String>, query: &str) -> (r: Vec<usize>)
    ensures
        forall|k: int|
            0 <= k < r@.len() ==> #[trigger] r@[k] < names@.len() && app_listed(
                names@[r@[k] as int]@,
                app_query(query@),
            ),
        forall|i: int|
            0 <= i < names@.len() && app_listed(#[trigger] names@[i]@, app_query(query@)) ==> exists|k: int|
                0 <= k < r@.len() && r@[k] == i,
        forall|a: int, b: int|
            0 <= a < b < r@.len() ==> app_before(names@, #[trigger] r@[a] as int, #[trigger] r@[b] as int),
{
    let trimmed = trim_chars(&chars_of(query), Sep::Whitespace);
    let q = to_lowercase(string_of(&trimmed).as_str());
    let qc = chars_of(q.as_str());
    let ghost qs = app_query(query@);
    let mut keys: Vec<Vec<char>> = Vec::new();
    let mut keep: Vec<bool> = Vec::new();
    let mut n: usize = 0;
    while n < names.len()
        invariant
            n <= names@.len(),
            q@ == qs,
            qc@ == qs,
            qs == app_query(query@),
            keys@.len() == n,
            keep@.len() == n,
            forall|j: int| 0 <= j < n ==> (#[trigger] keys@[j])@ == lowercase_of(names@[j]@),
            forall|j: int| 0 <= j < n ==> #[trigger] keep@[j] == app_listed(names@[j]@, qs),
        decreases names@.len() - n,
    {
        let lower = to_lowercase(names[n].as_str());
        let key = chars_of(lower.as_str());
        let listed = if qc.len() == 0 {
            true
        } else {
            match find_seq_chars(&key, q.as_str()) {
                Some(_) => true,
                None => false,
            }
        };
        keys.push(key);
        keep.push(listed);
        n += 1;
    }
    let r = text_order_indices(&keys, &keep);
    proof {
        let kv = views(keys@);
        assert forall|a: int, b: int| 0 <= a < b < r@.len() implies app_before(
            names@,
            #[trigger] r@[a] as int,
            #[trigger] r@[b] as int,
        ) by {
            assert(key_before(kv, r@[a] as int, r@[b] as int));
            assert(kv[r@[a] as int] == keys@[r@[a] as int]@);
            assert(kv[r@[b] as int] == keys@[r@[b] as int]@);
        }
        assert forall|i: int|
            0 <= i < names@.len() && app_listed(#[trigger] names@[i]@, app_query(query@)) implies exists|k: int|
                0 <= k < r@.len() && r@[k] == i by {
            assert(keep@[i]);
        }
    }
    r
}

} // verus!
