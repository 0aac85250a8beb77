//! Widget size presets and the positioning arithmetic of the dashboard
//! grid: snapping a dragged widget onto a column and a shelf, and
//! searching a page for free room.
use vstd::prelude::*;

verus! {

/// Gap between two widgets, and the page's own edge margin.
pub const GAP: i32 = 16;

/// A fixed widget footprint in logical pixels.
#[derive(Debug, Clone, Copy, PartialEq, Eq, Structural)]
pub struct Size {
    pub w: i32,
    pub h: i32,
}

impl Size {
    pub fn new(w: i32, h: i32) -> (s: Size)
        ensures
            s.w == w,
            s.h == h,
    {
        Size { w, h }
    }
}

/// Small: one sixth of a column (width, height).
pub const SIZE_S_W: i32 = 832;
pub const SIZE_S_H: i32 = 101;
/// Medium: half of a column.
pub const SIZE_M_W: i32 = 832;
pub const SIZE_M_H: i32 = 336;
/// Large: a full column inside the page margins.
pub const SIZE_L_W: i32 = 832;
pub const SIZE_L_H: i32 = 688;
/// Square: a medium widget cut in half, with a gap between the halves.
pub const SIZE_SQ_W: i32 = 408;
pub const SIZE_SQ_H: i32 = 336;
/// A small widget cut in half.
pub const SIZE_SX_W: i32 = 408;
pub const SIZE_SX_H: i32 = 101;
/// The half of the `SX` preset.
pub const SIZE_SSX_W: i32 = 196;
pub const SIZE_SSX_H: i32 = 101;

/// The small preset.
pub fn size_s() -> (s: Size)
    ensures
        s.w == SIZE_S_W && s.h == SIZE_S_H,
{
    Size { w: SIZE_S_W, h: SIZE_S_H }
}

/// The medium preset.
pub fn size_m() -> (s: Size)
    ensures
        s.w == SIZE_M_W && s.h == SIZE_M_H,
{
    Size { w: SIZE_M_W, h: SIZE_M_H }
}

/// The large preset.
pub fn size_l() -> (s: Size)
    ensures
        s.w == SIZE_L_W && s.h == SIZE_L_H,
{
    Size { w: SIZE_L_W, h: SIZE_L_H }
}

/// The square preset.
pub fn size_sq() -> (s: Size)
    ensures
        s.w == SIZE_SQ_W && s.h == SIZE_SQ_H,
{
    Size { w: SIZE_SQ_W, h: SIZE_SQ_H }
}

/// The half-small preset.
pub fn size_sx() -> (s: Size)
    ensures
        s.w == SIZE_SX_W && s.h == SIZE_SX_H,
{
    Size { w: SIZE_SX_W, h: SIZE_SX_H }
}

/// The quarter-small preset.
pub fn size_ssx() -> (s: Size)
    ensures
        s.w == SIZE_SSX_W && s.h == SIZE_SSX_H,
{
    Size { w: SIZE_SSX_W, h: SIZE_SSX_H }
}

/// Fallback page width: three full-width columns and their gaps.
pub const PAGE_W: i32 = 3 * SIZE_S_W + 2 * GAP;
/// Fallback page height: one large widget.
pub const PAGE_H: i32 = SIZE_L_H;

/// An axis-aligned rectangle in page-local logical pixels.
#[derive(Debug, Clone, Copy, PartialEq, Eq, Structural)]
pub struct Rect {
    pub x: i32,
    pub y: i32,
    pub w: i32,
    pub h: i32,
}

pub open spec fn in_i32(v: int) -> bool {
    i32::MIN <= v <= i32::MAX
}

/// The right and bottom edges of `r` are representable as `i32`.
pub open spec fn edges_fit(r: Rect) -> bool {
    in_i32(r.x + r.w) && in_i32(r.y + r.h)
}

/// Two rectangles share some area (touching edges do not count).
pub open spec fn overlap(ax: int, ay: int, aw: int, ah: int, bx: int, by: int, bw: int, bh: int) -> bool {
    &&& ax < bx + bw
    &&& bx < ax + aw
    &&& ay < by + bh
    &&& by < ay + ah
}

pub open spec fn rects_overlap(a: Rect, b: Rect) -> bool {
    overlap(a.x as int, a.y as int, a.w as int, a.h as int, b.x as int, b.y as int, b.w as int, b.h as int)
}

/// The edge sums that the overlap test of `a` against `b` computes, each
/// representable as `i32`: the test adds an edge only once every earlier
/// comparison has held.
pub open spec fn overlap_sums_fit(a: Rect, b: Rect) -> bool {
    &&& in_i32(b.x + b.w)
    &&& a.x < b.x + b.w ==> in_i32(a.x + a.w)
    &&& a.x < b.x + b.w && b.x < a.x + a.w ==> in_i32(b.y + b.h)
    &&& a.x < b.x + b.w && b.x < a.x + a.w && a.y < b.y + b.h ==> in_i32(a.y + a.h)
}

/// No rectangle of `others` overlaps `candidate`.
pub open spec fn free_of(others: Seq<Rect>, candidate: Rect) -> bool {
    forall|i: int| 0 <= i < others.len() ==> !rects_overlap(#[trigger] others[i], candidate)
}

impl Rect {
    pub fn new(x: i32, y: i32, w: i32, h: i32) -> (r: Rect)
        ensures
            r.x == x,
            r.y == y,
            r.w == w,
            r.h == h,
    {
        Rect { x, y, w, h }
    }

    /// Standard overlap test: true if the two rectangles share any area.
    pub fn overlaps(&self, other: &Rect) -> (b: bool)
        requires
            overlap_sums_fit(*self, *other),
        ensures
            b == rects_overlap(*self, *other),
    {
        self.x < other.x + other.w && other.x < self.x + self.w && self.y < other.y + other.h
            && other.y < self.y + self.h
    }
}

/// True if `candidate` overlaps no rectangle in `others`.
pub fn is_free(others: &[Rect], candidate: Rect) -> (b: bool)
    requires
        forall|i: int| 0 <= i < others@.len() ==> overlap_sums_fit(#[trigger] others@[i], candidate),
    ensures
        b == free_of(others@, candidate),
{
    let mut i: usize = 0;
    while i < others.len()
        invariant
            i <= others@.len(),
            forall|j: int| 0 <= j < others@.len() ==> overlap_sums_fit(#[trigger] others@[j], candidate),
            forall|j: int| 0 <= j < i ==> !rects_overlap(#[trigger] others@[j], candidate),
        decreases others@.len() - i,
    {
        if others[i].overlaps(&candidate) {
            return false;
        }
        i += 1;
    }
    true
}

pub open spec fn ints(s: Seq<i32>) -> Seq<int> {
    s.map_values(|v: i32| v as int)
}

pub open spec fn dist(a: int, b: int) -> int {
    if a >= b {
        a - b
    } else {
        b - a
    }
}

/// The element of `s` closest to `value`; the first such element on a tie.
pub open spec fn nearest_of(value: int, s: Seq<int>) -> int
    decreases s.len(),
{
    if s.len() <= 1 {
        s[0]
    } else {
        let best = nearest_of(value, s.drop_last());
        if dist(s.last(), value) < dist(best, value) {
            s.last()
        } else {
            best
        }
    }
}

/// `nearest_of` picks an element of `s` at minimal distance, and no earlier
/// element is at that distance.
pub proof fn lemma_nearest_is_first_closest(value: int, s: Seq<int>)
    requires
        s.len() > 0,
    ensures
        exists|j: int|
            #![trigger s[j]]
            0 <= j < s.len() && s[j] == nearest_of(value, s) && (forall|i: int|
                0 <= i < j ==> dist(#[trigger] s[i], value) > dist(nearest_of(value, s), value)),
        forall|i: int| 0 <= i < s.len() ==> dist(nearest_of(value, s), value) <= dist(#[trigger] s[i], value),
    decreases s.len(),
{
    if s.len() == 1 {
        assert(s[0] == nearest_of(value, s));
    } else {
        let t = s.drop_last();
        lemma_nearest_is_first_closest(value, t);
        let j = choose|j: int|
            #![trigger t[j]]
            0 <= j < t.len() && t[j] == nearest_of(value, t) && (forall|i: int|
                0 <= i < j ==> dist(#[trigger] t[i], value) > dist(nearest_of(value, t), value));
        if dist(s.last(), value) < dist(nearest_of(value, t), value) {
            let k = s.len() - 1;
            assert(s[k] == nearest_of(value, s));
            assert forall|i: int| 0 <= i < k implies dist(#[trigger] s[i], value) > dist(nearest_of(value, s), value) by {
                assert(s[i] == t[i]);
            }
        } else {
            assert(s[j] == nearest_of(value, s));
            assert forall|i: int| 0 <= i < j implies dist(#[trigger] s[i], value) > dist(nearest_of(value, s), value) by {
                assert(s[i] == t[i]);
            }
        }
        assert forall|i: int| 0 <= i < s.len() implies dist(nearest_of(value, s), value) <= dist(#[trigger] s[i], value) by {
            if i < s.len() - 1 {
                assert(s[i] == t[i]);
            }
        }
    }
}

/// `|a - b|`, for values whose distance fits in an `i32`.
fn abs_diff(a: i32, b: i32) -> (d: i32)
    requires
        dist(a as int, b as int) <= i32::MAX,
    ensures
        d as int == dist(a as int, b as int),
{
    if a >= b {
        a - b
    } else {
        b - a
    }
}

/// The candidate closest to `value` by absolute difference, the first one on
/// a tie.
fn nearest(value: i32, candidates: &[i32]) -> (r: i32)
    requires
        candidates@.len() > 0,
        forall|i: int| 0 <= i < candidates@.len() ==> dist(#[trigger] candidates@[i] as int, value as int) <= i32::MAX,
    ensures
        r as int == nearest_of(value as int, ints(candidates@)),
{
    let mut best = candidates[0];
    let mut best_dist: i32 = abs_diff(best, value);
    let mut i: usize = 1;
    assert(ints(candidates@).take(1).drop_last().len() == 0);
    while i < candidates.len()
        invariant
            1 <= i <= candidates@.len(),
            forall|j: int| 0 <= j < candidates@.len() ==> dist(#[trigger] candidates@[j] as int, value as int) <= i32::MAX,
            best as int == nearest_of(value as int, ints(candidates@).take(i as int)),
            best_dist as int == dist(best as int, value as int),
        decreases candidates@.len() - i,
    {
        let c = candidates[i];
        assert(dist(candidates@[i as int] as int, value as int) <= i32::MAX);
        let d: i32 = abs_diff(c, value);
        let ghost s = ints(candidates@).take(i as int + 1);
        assert(s.drop_last() =~= ints(candidates@).take(i as int));
        if d < best_dist {
            best = c;
            best_dist = d;
        }
        i += 1;
    }
    assert(ints(candidates@).take(candidates@.len() as int) =~= ints(candidates@));
    best
}

} // verus!

verus! {

/// Euclidean division pinned by its bounds.
proof fn lemma_div_by_bounds(a: int, b: int, q: int)
    requires
        b > 0,
        q * b <= a,
        a < (q + 1) * b,
    ensures
        a / b == q,
{
    vstd::arithmetic::div_mod::lemma_fundamental_div_mod(a, b);
    let r = a / b;
    assert(r == q) by (nonlinear_arith)
        requires
            b > 0,
            q * b <= a,
            a < (q + 1) * b,
            a == b * r + a % b,
            0 <= a % b < b,
    ;
}

/// How many left edges `column_positions` offers for a widget of `width`.
pub open spec fn column_count(page_width: int, width: int) -> nat {
    if page_width - width < 0 {
        1
    } else {
        (1 + (page_width - width) / (width + GAP)) as nat
    }
}

/// The left edges `0, step, 2*step, ...` with `step == width + GAP`: the
/// origin, then every further one at which the widget still fits.
pub open spec fn column_seq(page_width: int, width: int) -> Seq<int> {
    Seq::new(column_count(page_width, width), |k: int| k * (width + GAP))
}

/// Every intermediate value of `column_positions` fits in an `i32`.
pub open spec fn columns_fit(page_width: int, width: int) -> bool {
    &&& width > -GAP
    &&& 2 * width + GAP <= i32::MAX
    &&& 2 * width + GAP <= page_width ==> page_width + GAP <= i32::MAX && page_width + width + GAP
        <= i32::MAX
}

/// Every valid left edge for a widget of `width` on a page of `page_width`,
/// tiling from 0 at `width + GAP` steps and stopping once the next one would
/// overflow the page. Always holds at least `[0]`.
pub fn column_positions(page_width: i32, width: i32) -> (out: Vec<i32>)
    requires
        columns_fit(page_width as int, width as int),
    ensures
        ints(out@) == column_seq(page_width as int, width as int),
        out@.len() >= 1,
        out@[0] == 0,
        forall|k: int| 0 <= k < out@.len() ==> #[trigger] out@[k] == k * (width + GAP),
        forall|k: int| 1 <= k < out@.len() ==> #[trigger] out@[k] + width <= page_width,
        out@.len() * (width + GAP) + width > page_width,
{
    let step = width + GAP;
    let mut positions: Vec<i32> = Vec::new();
    positions.push(0);
    let mut x = step;
    let ghost mut k: int = 1;
    assert(x == k * step);
    assert(positions@[0] == 0 * step);
    while x + width <= page_width
        invariant
            columns_fit(page_width as int, width as int),
            step == width + GAP,
            k >= 1,
            positions@.len() == k,
            x == k * step,
            positions@[0] == 0,
            forall|j: int| 0 <= j < k ==> #[trigger] positions@[j] == j * step,
            forall|j: int| 1 <= j < k ==> #[trigger] positions@[j] + width <= page_width,
            k == 1 || (x <= page_width + GAP && 2 * width + GAP <= page_width),
        decreases page_width - x + step + GAP,
    {
        positions.push(x);
        assert((k + 1) * step == k * step + step) by (nonlinear_arith);
        x = x + step;
        proof {
            k = k + 1;
        }
    }
    proof {
        let n = positions@.len() as int;
        assert(n * step > page_width - width);
        assert((n - 1) * step == n * step - step) by (nonlinear_arith);
        if page_width - width >= 0 {
            if n >= 2 {
                assert(positions@[n - 1] + width <= page_width);
            }
            lemma_div_by_bounds(page_width - width, step as int, n - 1);
        } else {
            if n >= 2 {
                assert(positions@[n - 1] + width <= page_width);
                assert((n - 1) * step >= step) by (nonlinear_arith)
                    requires
                        n >= 2,
                        step > 0,
                ;
                assert(false);
            }
        }
        assert(ints(positions@) =~= column_seq(page_width as int, width as int));
    }
    positions
}

} // verus!

verus! {

pub open spec fn max0(v: int) -> int {
    if v > 0 {
        v
    } else {
        0
    }
}

/// `v` clamped into `[lo, hi]` (for `lo <= hi`).
pub open spec fn clamp_to(v: int, lo: int, hi: int) -> int {
    if v < lo {
        lo
    } else if v > hi {
        hi
    } else {
        v
    }
}

/// The self-tiling shelves `0, step, 2*step, ...` up to `max_y`.
pub open spec fn self_shelves(max_y: int, step: int) -> Seq<int> {
    Seq::new((1 + max_y / step) as nat, |k: int| k * step)
}

/// The bottom edge plus a gap of a rectangle.
pub open spec fn shelf_below(o: Rect) -> int {
    o.y + o.h + GAP
}

/// Whether `o` shares some of the column span `[x, x + w)`.
pub open spec fn shares_column(o: Rect, x: int, w: int) -> bool {
    x < o.x + o.w && o.x < x + w
}

/// One shelf right below each rectangle of `others` that shares the column
/// span `[x, x + w)`, in the order of `others`, when that shelf is no lower
/// than `max_y`.
pub open spec fn neighbour_shelves(others: Seq<Rect>, x: int, w: int, max_y: int) -> Seq<int>
    decreases others.len(),
{
    if others.len() == 0 {
        Seq::empty()
    } else {
        let prev = neighbour_shelves(others.drop_last(), x, w, max_y);
        let o = others.last();
        if shares_column(o, x, w) && shelf_below(o) <= max_y {
            prev.push(shelf_below(o))
        } else {
            prev
        }
    }
}

/// The column `snap_to_layout` picks: the column position nearest the
/// clamped raw x.
pub open spec fn snapped_x(size: Size, raw_x: int, page_w: int) -> int {
    nearest_of(clamp_to(raw_x, 0, max0(page_w - size.w)), column_seq(page_w, size.w as int))
}

/// Every shelf offered to a widget of `size` snapped to column `x`.
pub open spec fn shelf_seq(others: Seq<Rect>, size: Size, x: int, page_h: int) -> Seq<int> {
    let max_y = max0(page_h - size.h);
    self_shelves(max_y, size.h + GAP) + neighbour_shelves(others, x, size.w as int, max_y)
}

/// The shelf `snap_to_layout` picks: the shelf nearest the clamped raw y.
pub open spec fn snapped_y(others: Seq<Rect>, size: Size, raw_x: int, raw_y: int, page_w: int, page_h: int) -> int {
    let x = snapped_x(size, raw_x, page_w);
    nearest_of(clamp_to(raw_y, 0, max0(page_h - size.h)), shelf_seq(others, size, x, page_h))
}

/// Every intermediate value of `snap_to_layout` fits in an `i32`.
pub open spec fn snap_fits(others: Seq<Rect>, size: Size, raw_x: int, page_w: int, page_h: int) -> bool {
    let max_y = max0(page_h - size.h);
    &&& columns_fit(page_w, size.w as int)
    &&& in_i32(page_w - size.w)
    &&& in_i32(page_h - size.h)
    &&& size.h > -GAP
    &&& max_y + size.h + GAP <= i32::MAX
    &&& forall|i: int| 0 <= i < others.len() ==> edges_fit(#[trigger] others[i]) && in_i32(shelf_below(others[i]))
    &&& forall|i: int|
        0 <= i < neighbour_shelves(others, snapped_x(size, raw_x, page_w), size.w as int, max_y).len()
            ==> #[trigger] neighbour_shelves(others, snapped_x(size, raw_x, page_w), size.w as int, max_y)[i]
            >= max_y - i32::MAX
}

fn clamp_i32(v: i32, lo: i32, hi: i32) -> (r: i32)
    requires
        lo <= hi,
    ensures
        r as int == clamp_to(v as int, lo as int, hi as int),
{
    if v < lo {
        lo
    } else if v > hi {
        hi
    } else {
        v
    }
}

/// Snaps a dragged widget's raw position onto the grid: the nearest column
/// for x, and the nearest shelf for y. `others` holds every other widget on
/// the page. The shelves are the self-tiling ones (`0, step, 2*step, ...`
/// with `step == size.h + GAP`) followed by one shelf right below each other
/// widget that shares the snapped column span.
pub fn snap_to_layout(others: &[Rect], size: Size, raw_x: i32, raw_y: i32, page_w: i32, page_h: i32) -> (r: (
    i32,
    i32,
))
    requires
        snap_fits(others@, size, raw_x as int, page_w as int, page_h as int),
    ensures
        r.0 == snapped_x(size, raw_x as int, page_w as int),
        r.1 == snapped_y(others@, size, raw_x as int, raw_y as int, page_w as int, page_h as int),
{
    let max_x = if page_w - size.w > 0 {
        page_w - size.w
    } else {
        0
    };
    let max_y = if page_h - size.h > 0 {
        page_h - size.h
    } else {
        0
    };
    let clamped_x = clamp_i32(raw_x, 0, max_x);
    let clamped_y = clamp_i32(raw_y, 0, max_y);

    let columns = column_positions(page_w, size.w);
    proof {
        assert forall|i: int| 0 <= i < columns@.len() implies dist(
            #[trigger] columns@[i] as int,
            clamped_x as int,
        ) <= i32::MAX by {
            if i >= 1 {
                assert(columns@[i] + size.w <= page_w);
                assert(columns@[i] == i * (size.w + GAP));
                assert(i * (size.w + GAP) >= 0) by (nonlinear_arith)
                    requires
                        i >= 1,
                        size.w + GAP > 0,
                ;
            }
        }
    }
    let x = nearest(clamped_x, columns.as_slice());
    proof {
        lemma_nearest_is_first_closest(clamped_x as int, ints(columns@));
        let j = choose|j: int|
            #![trigger ints(columns@)[j]]
            0 <= j < ints(columns@).len() && ints(columns@)[j] == nearest_of(clamped_x as int, ints(columns@))
                && (forall|i: int|
                0 <= i < j ==> dist(#[trigger] ints(columns@)[i], clamped_x as int) > dist(
                    nearest_of(clamped_x as int, ints(columns@)),
                    clamped_x as int,
                ));
        assert(x == columns@[j]);
        if j >= 1 {
            assert(columns@[j] + size.w <= page_w);
            assert(columns@[j] == j * (size.w + GAP));
            assert(j * (size.w + GAP) >= 0) by (nonlinear_arith)
                requires
                    j >= 1,
                    size.w + GAP > 0,
            ;
        }
    }

    let step = size.h + GAP;
    let mut shelves: Vec<i32> = Vec::new();
    shelves.push(0);
    let mut y = step;
    let ghost mut k: int = 1;
    assert(shelves@[0] == 0 * step);
    while y <= max_y
        invariant
            step == size.h + GAP,
            step > 0,
            max_y >= 0,
            max_y + step <= i32::MAX,
            k >= 1,
            shelves@.len() == k,
            y == k * step,
            forall|j: int| 0 <= j < k ==> #[trigger] shelves@[j] == j * step,
            forall|j: int| 0 <= j < k ==> 0 <= #[trigger] shelves@[j] <= max_y,
        decreases max_y - y + step,
    {
        shelves.push(y);
        assert((k + 1) * step == k * step + step) by (nonlinear_arith);
        y = y + step;
        proof {
            k = k + 1;
        }
    }
    proof {
        let n = shelves@.len() as int;
        assert((n - 1) * step == n * step - step) by (nonlinear_arith);
        assert(shelves@[n - 1] == (n - 1) * step);
        lemma_div_by_bounds(max_y as int, step as int, n - 1);
        assert(ints(shelves@) =~= self_shelves(max_y as int, step as int));
    }
    let ghost base = ints(shelves@);
    let mut i: usize = 0;
    assert(others@.take(0) =~= Seq::<Rect>::empty());
    assert(base + Seq::<int>::empty() =~= base);
    while i < others.len()
        invariant
            i <= others@.len(),
            snap_fits(others@, size, raw_x as int, page_w as int, page_h as int),
            x as int == snapped_x(size, raw_x as int, page_w as int),
            0 <= x <= max_x,
            max_x as int == max0(page_w - size.w),
            max_y as int == max0(page_h - size.h),
            base == self_shelves(max_y as int, step as int),
            step == size.h + GAP,
            ints(shelves@) == base + neighbour_shelves(others@.take(i as int), x as int, size.w as int, max_y as int),
        decreases others@.len() - i,
    {
        let other = others[i];
        let ghost t = others@.take(i as int + 1);
        assert(t.drop_last() =~= others@.take(i as int));
        assert(t.last() == other);
        let ghost before = ints(shelves@);
        assert(edges_fit(others@[i as int]) && in_i32(shelf_below(others@[i as int])));
        let overlaps_x = x < other.x + other.w && other.x < x + size.w;
        if overlaps_x {
            let shelf = other.y + other.h + GAP;
            if shelf <= max_y {
                shelves.push(shelf);
                assert(ints(shelves@) =~= before.push(shelf as int));
            }
        }
        assert(ints(shelves@) =~= base + neighbour_shelves(
            others@.take(i as int + 1),
            x as int,
            size.w as int,
            max_y as int,
        ));
        i += 1;
    }
    assert(others@.take(others@.len() as int) =~= others@);
    proof {
        let nb = neighbour_shelves(others@, x as int, size.w as int, max_y as int);
        assert forall|j: int| 0 <= j < shelves@.len() implies dist(
            #[trigger] shelves@[j] as int,
            clamped_y as int,
        ) <= i32::MAX by {
            if j < base.len() {
                assert(ints(shelves@)[j] == base[j]);
                assert(base[j] == j * step);
                assert(j * step <= max_y) by {
                    lemma_self_shelves_bounded(max_y as int, step as int, j);
                }
                assert(j * step >= 0) by (nonlinear_arith)
                    requires
                        j >= 0,
                        step > 0,
                ;
            } else {
                assert(ints(shelves@)[j] == nb[j - base.len()]);
                lemma_neighbour_shelves_below(others@, x as int, size.w as int, max_y as int, j - base.len());
            }
        }
        assert(shelf_seq(others@, size, x as int, page_h as int) == ints(shelves@));
    }
    let y = nearest(clamped_y, shelves.as_slice());
    (x, y)
}

proof fn lemma_self_shelves_bounded(max_y: int, step: int, j: int)
    requires
        max_y >= 0,
        step > 0,
        0 <= j < 1 + max_y / step,
    ensures
        j * step <= max_y,
{
    vstd::arithmetic::div_mod::lemma_fundamental_div_mod(max_y, step);
    let q = max_y / step;
    assert(j * step <= q * step) by (nonlinear_arith)
        requires
            j <= q,
            step > 0,
    ;
    assert(q * step == step * q) by (nonlinear_arith);
}

/// Every neighbour shelf lies no lower than `max_y`.
pub proof fn lemma_neighbour_shelves_below(others: Seq<Rect>, x: int, w: int, max_y: int, j: int)
    requires
        0 <= j < neighbour_shelves(others, x, w, max_y).len(),
    ensures
        neighbour_shelves(others, x, w, max_y)[j] <= max_y,
    decreases others.len(),
{
    let prev = neighbour_shelves(others.drop_last(), x, w, max_y);
    if j < prev.len() {
        lemma_neighbour_shelves_below(others.drop_last(), x, w, max_y, j);
    }
}

} // verus!

verus! {

/// Horizontal pitch of the free-space scan: half a column for narrow
/// widgets, so two of them can sit side by side, a full column otherwise.
pub open spec fn scan_step(size: Size) -> int {
    if size.w <= SIZE_SQ_W {
        SIZE_SQ_W + GAP
    } else {
        SIZE_S_W + GAP
    }
}

/// The `k`-th left edge of the free-space scan.
pub open spec fn scan_x(size: Size, k: int) -> int {
    if size.w <= SIZE_SQ_W {
        k * (SIZE_SQ_W + GAP)
    } else {
        k * (SIZE_S_W + GAP)
    }
}

/// A row the free-space scan tries: the top of the page, or right below an
/// occupied rectangle.
pub open spec fn is_row_candidate(occupied: Seq<Rect>, y: int) -> bool {
    y == 0 || exists|i: int| 0 <= i < occupied.len() && shelf_below(#[trigger] occupied[i]) == y
}

/// No rectangle of `occupied` overlaps the rectangle `(x, y, w, h)`.
pub open spec fn free_at(occupied: Seq<Rect>, x: int, y: int, w: int, h: int) -> bool {
    forall|i: int|
        0 <= i < occupied.len() ==> !overlap(
            (#[trigger] occupied[i]).x as int,
            occupied[i].y as int,
            occupied[i].w as int,
            occupied[i].h as int,
            x,
            y,
            w,
            h,
        )
}

/// The slot at row `y` and scan column `k` is a candidate, lies on the page
/// and is free.
pub open spec fn slot_open(occupied: Seq<Rect>, size: Size, page_w: int, page_h: int, y: int, k: int) -> bool {
    &&& k >= 0
    &&& is_row_candidate(occupied, y)
    &&& y + size.h <= page_h
    &&& scan_x(size, k) + size.w <= page_w
    &&& free_at(occupied, scan_x(size, k), y, size.w as int, size.h as int)
}

/// `(x, y)` is the open slot that comes first top-to-bottom, then
/// left-to-right.
pub open spec fn is_first_open_slot(occupied: Seq<Rect>, size: Size, page_w: int, page_h: int, x: int, y: int) -> bool {
    exists|k: int|
        x == scan_x(size, k) && #[trigger] slot_open(occupied, size, page_w, page_h, y, k) && forall|y2: int, k2: int|
            #[trigger] slot_open(occupied, size, page_w, page_h, y2, k2) ==> y < y2 || (y == y2 && k <= k2)
}

/// Every intermediate value of `find_free_position` fits in an `i32`.
pub open spec fn free_search_fits(occupied: Seq<Rect>, size: Size, page_w: int) -> bool {
    &&& forall|i: int|
        0 <= i < occupied.len() ==> edges_fit(#[trigger] occupied[i]) && in_i32(shelf_below(occupied[i]))
            && in_i32(shelf_below(occupied[i]) + size.h)
    &&& size.w <= page_w ==> page_w - size.w + scan_step(size) <= i32::MAX && page_w + scan_step(size)
        <= i32::MAX
}

/// The row candidates, sorted ascending without duplicates.
fn candidate_rows(occupied: &[Rect]) -> (ys: Vec<i32>)
    requires
        forall|i: int|
            0 <= i < occupied@.len() ==> edges_fit(#[trigger] occupied@[i]) && in_i32(shelf_below(occupied@[i])),
    ensures
        forall|i: int, j: int| 0 <= i < j < ys@.len() ==> ys@[i] < ys@[j],
        forall|y: int| is_row_candidate(occupied@, y) <==> ints(ys@).contains(y),
{
    let mut ys: Vec<i32> = Vec::new();
    ys.push(0);
    let mut n: usize = 0;
    assert(ints(ys@)[0] == 0);
    while n < occupied.len()
        invariant
            n <= occupied@.len(),
            forall|i: int|
                0 <= i < occupied@.len() ==> edges_fit(#[trigger] occupied@[i]) && in_i32(shelf_below(occupied@[i])),
            forall|i: int, j: int| 0 <= i < j < ys@.len() ==> ys@[i] < ys@[j],
            forall|y: int|
                (y == 0 || exists|i: int| 0 <= i < n && shelf_below(#[trigger] occupied@[i]) == y) <==> ints(
                    ys@,
                ).contains(y),
        decreases occupied@.len() - n,
    {
        let r = occupied[n];
        assert(edges_fit(occupied@[n as int]) && in_i32(shelf_below(occupied@[n as int])));
        let v = r.y + r.h + GAP;
        let ghost old_ys = ys@;
        let mut p: usize = 0;
        while p < ys.len() && ys[p] < v
            invariant
                p <= ys@.len(),
                forall|q: int| 0 <= q < p ==> ys@[q] < v,
            decreases ys@.len() - p,
        {
            p += 1;
        }
        if p < ys.len() && ys[p] == v {
            assert(ints(ys@)[p as int] == v);
            assert forall|y: int| ints(ys@).contains(y) <==> (ints(old_ys).contains(y) || y == v) by {}
        } else {
            ys.insert(p, v);
            assert forall|i: int, j: int| 0 <= i < j < ys@.len() implies ys@[i] < ys@[j] by {
                if j < p {
                } else if i > p {
                    assert(ys@[i] == old_ys[i - 1] && ys@[j] == old_ys[j - 1]);
                } else if i == p {
                    assert(ys@[j] == old_ys[j - 1]);
                } else if j == p {
                } else {
                    assert(ys@[j] == old_ys[j - 1]);
                }
            }
            assert forall|y: int| ints(old_ys).contains(y) || y == v implies ints(ys@).contains(y) by {
                if y == v {
                    assert(ints(ys@)[p as int] == v);
                } else {
                    let q = choose|q: int| 0 <= q < old_ys.len() && ints(old_ys)[q] == y;
                    if q < p {
                        assert(ints(ys@)[q] == y);
                    } else {
                        assert(ints(ys@)[q + 1] == y);
                    }
                }
            }
            assert forall|y: int| ints(ys@).contains(y) implies ints(old_ys).contains(y) || y == v by {
                let q = choose|q: int| 0 <= q < ys@.len() && ints(ys@)[q] == y;
                if q < p {
                    assert(ints(old_ys)[q] == y);
                } else if q > p {
                    assert(ints(old_ys)[q - 1] == y);
                }
            }
        }
        assert(shelf_below(occupied@[n as int]) == v);
        assert forall|y: int|
            (y == 0 || exists|i: int| 0 <= i < n + 1 && shelf_below(#[trigger] occupied@[i]) == y) <==> ints(
                ys@,
            ).contains(y) by {
            let in_old = ints(old_ys).contains(y);
            assert(in_old <==> (y == 0 || exists|i: int| 0 <= i < n && shelf_below(#[trigger] occupied@[i]) == y));
            assert(ints(ys@).contains(y) <==> (in_old || y == v));
            if exists|i: int| 0 <= i < n + 1 && shelf_below(#[trigger] occupied@[i]) == y {
                let i = choose|i: int| 0 <= i < n + 1 && shelf_below(#[trigger] occupied@[i]) == y;
                if i < n {
                    assert(ints(old_ys).contains(y));
                }
            }
            if ints(ys@).contains(y) {
                if ints(old_ys).contains(y) {
                    if y != 0 {
                        let i = choose|i: int| 0 <= i < n && shelf_below(#[trigger] occupied@[i]) == y;
                        assert(0 <= i < n + 1 && shelf_below(occupied@[i]) == y);
                    }
                } else {
                    assert(y == v);
                }
            }
        }
        n += 1;
    }
    ys
}

} // verus!

verus! {

/// Scans for the first free spot that fits `size` on a page occupied by
/// `occupied`: rows from top to bottom (the top of the page and the shelf
/// right below every occupied rectangle), and within a row left to right at
/// the pitch `scan_step(size)`. `None` when the page is full.
pub fn find_free_position(occupied: &[Rect], size: Size, page_w: i32, page_h: i32) -> (r: Option<(i32, i32)>)
    requires
        free_search_fits(occupied@, size, page_w as int),
    ensures
        match r {
            Some(p) => is_first_open_slot(occupied@, size, page_w as int, page_h as int, p.0 as int, p.1 as int),
            None => forall|y2: int, k2: int| !#[trigger] slot_open(occupied@, size, page_w as int, page_h as int, y2, k2),
        },
{
    let step_x = if size.w <= SIZE_SQ_W {
        SIZE_SQ_W + GAP
    } else {
        SIZE_S_W + GAP
    };
    let ys = candidate_rows(occupied);
    let ghost occ = occupied@;
    let ghost pw = page_w as int;
    let ghost ph = page_h as int;
    let mut i: usize = 0;
    while i < ys.len()
        invariant
            i <= ys@.len(),
            occ == occupied@,
            pw == page_w as int,
            ph == page_h as int,
            step_x == scan_step(size),
            free_search_fits(occ, size, pw),
            forall|a: int, b: int| 0 <= a < b < ys@.len() ==> ys@[a] < ys@[b],
            forall|y: int| is_row_candidate(occ, y) <==> ints(ys@).contains(y),
            forall|j: int, k: int| 0 <= j < i ==> !#[trigger] slot_open(occ, size, pw, ph, ys@[j] as int, k),
        decreases ys@.len() - i,
    {
        let y = ys[i];
        assert(ints(ys@)[i as int] == y);
        assert(is_row_candidate(occ, y as int));
        assert(in_i32(y + size.h)) by {
            if y != 0 {
                let q = choose|q: int| 0 <= q < occ.len() && shelf_below(#[trigger] occ[q]) == y;
                assert(in_i32(shelf_below(occ[q]) + size.h));
            }
        }
        if y + size.h > page_h {
            assert forall|k: int| !#[trigger] slot_open(occ, size, pw, ph, ys@[i as int] as int, k) by {}
            i += 1;
            continue;
        }
        let mut x: i32 = 0;
        let ghost mut k: int = 0;
        while x + size.w <= page_w
            invariant
                occ == occupied@,
                pw == page_w as int,
                ph == page_h as int,
                step_x == scan_step(size),
                free_search_fits(occ, size, pw),
                is_row_candidate(occ, y as int),
                y + size.h <= page_h,
                i < ys@.len(),
                y == ys@[i as int],
                forall|a: int, b: int| 0 <= a < b < ys@.len() ==> ys@[a] < ys@[b],
                forall|yy: int| is_row_candidate(occ, yy) <==> ints(ys@).contains(yy),
                forall|j: int, kk: int| 0 <= j < i ==> !#[trigger] slot_open(occ, size, pw, ph, ys@[j] as int, kk),
                k >= 0,
                x == scan_x(size, k),
                k == 0 || (x <= page_w - size.w + step_x && size.w <= page_w),
                forall|k2: int| 0 <= k2 < k ==> !#[trigger] slot_open(occ, size, pw, ph, y as int, k2),
            decreases page_w - size.w - x + step_x,
        {
            let candidate = Rect::new(x, y, size.w, size.h);
            if is_free(occupied, candidate) {
                proof {
                    assert(slot_open(occ, size, pw, ph, y as int, k));
                    assert forall|y2: int, k2: int| #[trigger]
                        slot_open(occ, size, pw, ph, y2, k2) implies y < y2 || (y == y2 && k <= k2) by {
                        if y2 < y {
                            assert(ints(ys@).contains(y2));
                            let j = choose|j: int| 0 <= j < ys@.len() && ints(ys@)[j] == y2;
                            if j >= i {
                                if j > i {
                                    assert(ys@[i as int] < ys@[j]);
                                }
                            } else {
                                assert(!slot_open(occ, size, pw, ph, ys@[j] as int, k2));
                            }
                        }
                    }
                }
                return Some((x, y));
            }
            x = x + step_x;
            proof {
                k = k + 1;
            }
        }
        proof {
            assert forall|k2: int| !#[trigger] slot_open(occ, size, pw, ph, ys@[i as int] as int, k2) by {
                if k2 >= k {
                    assert(scan_x(size, k2) >= scan_x(size, k));
                }
            }
        }
        i += 1;
    }
    proof {
        assert forall|y2: int, k2: int| !#[trigger] slot_open(occ, size, pw, ph, y2, k2) by {
            if slot_open(occ, size, pw, ph, y2, k2) {
                assert(ints(ys@).contains(y2));
                let j = choose|j: int| 0 <= j < ys@.len() && ints(ys@)[j] == y2;
                assert(!slot_open(occ, size, pw, ph, ys@[j] as int, k2));
            }
        }
    }
    None
}

} // verus!

verus! {

/// Overlap does not depend on the order of the two rectangles.
pub proof fn lemma_overlap_symmetric(a: Rect, b: Rect)
    ensures
        rects_overlap(a, b) == rects_overlap(b, a),
{
}

/// Rectangles that only touch along an edge do not overlap.
pub proof fn lemma_touching_edges_do_not_overlap(a: Rect, b: Rect)
    requires
        b.x == a.x + a.w || b.y == a.y + a.h,
    ensures
        !rects_overlap(a, b),
{
}

/// The spot `find_free_position` returns lies on the page, in one of the
/// candidate rows, and no occupied rectangle overlaps the widget placed
/// there.
pub proof fn lemma_free_position_is_free_and_on_page(
    occupied: Seq<Rect>,
    size: Size,
    page_w: int,
    page_h: int,
    x: int,
    y: int,
)
    requires
        is_first_open_slot(occupied, size, page_w, page_h, x, y),
    ensures
        0 <= x,
        x + size.w <= page_w,
        y + size.h <= page_h,
        is_row_candidate(occupied, y),
        forall|i: int|
            0 <= i < occupied.len() ==> !overlap(
                (#[trigger] occupied[i]).x as int,
                occupied[i].y as int,
                occupied[i].w as int,
                occupied[i].h as int,
                x,
                y,
                size.w as int,
                size.h as int,
            ),
{
    let k = choose|k: int|
        x == scan_x(size, k) && #[trigger] slot_open(occupied, size, page_w, page_h, y, k) && forall|y2: int, k2: int|
            #[trigger] slot_open(occupied, size, page_w, page_h, y2, k2) ==> y < y2 || (y == y2 && k <= k2);
    assert(slot_open(occupied, size, page_w, page_h, y, k));
}

/// The position `snap_to_layout` picks is on the grid: x is one of the
/// column positions, clamped onto the page, and y is one of the offered
/// shelves, never below the last row the widget fits in.
pub proof fn lemma_snap_is_on_grid(others: Seq<Rect>, size: Size, raw_x: int, raw_y: int, page_w: int, page_h: int)
    requires
        columns_fit(page_w, size.w as int),
        size.h > -GAP,
    ensures
        column_seq(page_w, size.w as int).contains(snapped_x(size, raw_x, page_w)),
        0 <= snapped_x(size, raw_x, page_w) <= max0(page_w - size.w),
        shelf_seq(others, size, snapped_x(size, raw_x, page_w), page_h).contains(
            snapped_y(others, size, raw_x, raw_y, page_w, page_h),
        ),
        snapped_y(others, size, raw_x, raw_y, page_w, page_h) <= max0(page_h - size.h),
{
    let cols = column_seq(page_w, size.w as int);
    let cx = clamp_to(raw_x, 0, max0(page_w - size.w));
    lemma_nearest_is_first_closest(cx, cols);
    let j = choose|j: int|
        #![trigger cols[j]]
        0 <= j < cols.len() && cols[j] == nearest_of(cx, cols) && (forall|i: int|
            0 <= i < j ==> dist(#[trigger] cols[i], cx) > dist(nearest_of(cx, cols), cx));
    let step = size.w + GAP;
    assert(cols[j] == j * step);
    assert(j * step >= 0) by (nonlinear_arith)
        requires
            j >= 0,
            step > 0,
    ;
    if page_w - size.w < 0 {
        assert(cols.len() == 1);
        assert(j == 0);
    }
    if j >= 1 && page_w - size.w >= 0 {
        vstd::arithmetic::div_mod::lemma_fundamental_div_mod(page_w - size.w, step);
        let q = (page_w - size.w) / step;
        assert(q >= 0) by {
            vstd::arithmetic::div_mod::lemma_div_pos_is_pos(page_w - size.w, step);
        }
        assert(cols.len() == 1 + q);
        assert(j <= q);
        assert(j * step <= q * step) by (nonlinear_arith)
            requires
                j <= q,
                step > 0,
        ;
        assert(q * step == step * q) by (nonlinear_arith);
        vstd::arithmetic::div_mod::lemma_mod_bound(page_w - size.w, step);
        assert(j * step <= page_w - size.w);
    }
    assert(nearest_of(cx, cols) == cols[j]);
    if j == 0 {
        assert(j * step == 0) by (nonlinear_arith)
            requires
                j == 0,
        ;
    }
    let x = snapped_x(size, raw_x, page_w);
    assert(0 <= x <= max0(page_w - size.w));
    let shelves = shelf_seq(others, size, x, page_h);
    let max_y = max0(page_h - size.h);
    let cy = clamp_to(raw_y, 0, max_y);
    let hs = size.h + GAP;
    assert(shelves.len() >= 1) by {
        assert(self_shelves(max_y, hs).len() >= 1);
    }
    lemma_nearest_is_first_closest(cy, shelves);
    let m = choose|m: int|
        #![trigger shelves[m]]
        0 <= m < shelves.len() && shelves[m] == nearest_of(cy, shelves) && (forall|i: int|
            0 <= i < m ==> dist(#[trigger] shelves[i], cy) > dist(nearest_of(cy, shelves), cy));
    let base = self_shelves(max_y, hs);
    if m < base.len() {
        lemma_self_shelves_bounded(max_y, hs, m);
    } else {
        lemma_neighbour_shelves_below(others, x, size.w as int, max_y, m - base.len());
    }
}


/// A page with nothing on it leaves every spot free; freedom against two
/// groups of rectangles together is freedom against each; and only which
/// rectangles are there counts, not their order or repetition.
pub proof fn lemma_free_of_laws(a: Seq<Rect>, b: Seq<Rect>, candidate: Rect)
    ensures
        free_of(Seq::<Rect>::empty(), candidate),
        free_of(a + b, candidate) == (free_of(a, candidate) && free_of(b, candidate)),
        (forall|r: Rect| #![trigger a.contains(r)] #![trigger b.contains(r)] a.contains(r) <==> b.contains(r)) ==> free_of(a, candidate) == free_of(b, candidate),
{
    assert forall|i: int| 0 <= i < a.len() implies (a + b)[i] == #[trigger] a[i] by {}
    assert forall|i: int| 0 <= i < b.len() implies (a + b)[a.len() + i] == #[trigger] b[i] by {}
    if free_of(a, candidate) && free_of(b, candidate) {
        assert forall|i: int| 0 <= i < (a + b).len() implies !rects_overlap(#[trigger] (a + b)[i], candidate) by {
            if i >= a.len() {
                assert((a + b)[i] == b[i - a.len()]);
            }
        }
    }
    if forall|r: Rect| #![trigger a.contains(r)] #![trigger b.contains(r)] a.contains(r) <==> b.contains(r) {
        if free_of(a, candidate) {
            assert forall|i: int| 0 <= i < b.len() implies !rects_overlap(#[trigger] b[i], candidate) by {
                assert(b.contains(b[i]));
                let j = choose|j: int| 0 <= j < a.len() && a[j] == b[i];
                assert(!rects_overlap(a[j], candidate));
            }
        }
        if free_of(b, candidate) {
            assert forall|i: int| 0 <= i < a.len() implies !rects_overlap(#[trigger] a[i], candidate) by {
                assert(a.contains(a[i]));
                let j = choose|j: int| 0 <= j < b.len() && b[j] == a[i];
                assert(!rects_overlap(b[j], candidate));
            }
        }
    }
}

/// A value that is among the candidates is its own nearest candidate.
proof fn lemma_nearest_of_member(v: int, s: Seq<int>)
    requires
        s.contains(v),
    ensures
        nearest_of(v, s) == v,
{
    lemma_nearest_is_first_closest(v, s);
    let i = choose|i: int| 0 <= i < s.len() && s[i] == v;
    assert(dist(nearest_of(v, s), v) <= dist(s[i], v));
}

/// Snapping an already snapped position leaves it where it is.
pub proof fn lemma_snap_is_idempotent(
    others: Seq<Rect>,
    size: Size,
    raw_x: int,
    raw_y: int,
    page_w: int,
    page_h: int,
)
    requires
        columns_fit(page_w, size.w as int),
        size.h > -GAP,
    ensures
        snapped_x(size, snapped_x(size, raw_x, page_w), page_w) == snapped_x(size, raw_x, page_w),
        snapped_y(
            others,
            size,
            snapped_x(size, raw_x, page_w),
            snapped_y(others, size, raw_x, raw_y, page_w, page_h),
            page_w,
            page_h,
        ) == snapped_y(others, size, raw_x, raw_y, page_w, page_h),
{
    lemma_snap_is_on_grid(others, size, raw_x, raw_y, page_w, page_h);
    let x = snapped_x(size, raw_x, page_w);
    let y = snapped_y(others, size, raw_x, raw_y, page_w, page_h);
    let cols = column_seq(page_w, size.w as int);
    assert(clamp_to(x, 0, max0(page_w - size.w)) == x);
    lemma_nearest_of_member(x, cols);
    let max_y = max0(page_h - size.h);
    let shelves = shelf_seq(others, size, x, page_h);
    let cy = clamp_to(raw_y, 0, max_y);
    lemma_nearest_is_first_closest(cy, shelves);
    assert(shelves[0] == 0) by {
        assert(self_shelves(max_y, size.h + GAP)[0] == 0 * (size.h + GAP));
    }
    assert(dist(y, cy) <= dist(shelves[0], cy));
    assert(0 <= y);
    assert(clamp_to(y, 0, max_y) == y);
    lemma_nearest_of_member(y, shelves);
}

/// The shelves right below other widgets: exactly one for each widget that
/// shares the column span, when it is no lower than `max_y`.
proof fn lemma_neighbour_shelves_members(others: Seq<Rect>, x: int, w: int, max_y: int, s: int)
    ensures
        neighbour_shelves(others, x, w, max_y).contains(s) <==> exists|i: int|
            0 <= i < others.len() && shares_column(#[trigger] others[i], x, w) && shelf_below(others[i]) <= max_y
                && shelf_below(others[i]) == s,
    decreases others.len(),
{
    if others.len() > 0 {
        let t = others.drop_last();
        lemma_neighbour_shelves_members(t, x, w, max_y, s);
        let prev = neighbour_shelves(t, x, w, max_y);
        let o = others.last();
        let n = others.len() - 1;
        if exists|i: int|
            0 <= i < others.len() && shares_column(#[trigger] others[i], x, w) && shelf_below(others[i]) <= max_y
                && shelf_below(others[i]) == s {
            let i = choose|i: int|
                0 <= i < others.len() && shares_column(#[trigger] others[i], x, w) && shelf_below(others[i]) <= max_y
                    && shelf_below(others[i]) == s;
            if i < n {
                assert(t[i] == others[i]);
                assert(prev.contains(s));
                let q = choose|q: int| 0 <= q < prev.len() && prev[q] == s;
                if shares_column(o, x, w) && shelf_below(o) <= max_y {
                    assert(prev.push(shelf_below(o))[q] == s);
                }
            } else {
                assert(prev.push(shelf_below(o))[prev.len() as int] == s);
            }
        }
        if neighbour_shelves(others, x, w, max_y).contains(s) {
            let cur = neighbour_shelves(others, x, w, max_y);
            let q = choose|q: int| 0 <= q < cur.len() && cur[q] == s;
            if q < prev.len() {
                if shares_column(o, x, w) && shelf_below(o) <= max_y {
                    assert(cur[q] == prev[q]);
                }
                assert(prev.contains(s));
                let i = choose|i: int|
                    0 <= i < t.len() && shares_column(#[trigger] t[i], x, w) && shelf_below(t[i]) <= max_y
                        && shelf_below(t[i]) == s;
                assert(others[i] == t[i]);
            } else {
                assert(others[n] == o);
            }
        }
    }
}

/// The shelves offered to a widget of `size` snapped to column `x` are
/// exactly: every multiple `k * (size.h + GAP)` (for `k >= 0`) that is no
/// lower than the last row the widget fits in, and the shelf right below
/// every other widget that shares the column span, when that one is no
/// lower either.
pub proof fn lemma_offered_shelves(others: Seq<Rect>, size: Size, x: int, page_h: int, s: int)
    requires
        size.h > -GAP,
    ensures
        shelf_seq(others, size, x, page_h).contains(s) <==> ((exists|k: int|
            k >= 0 && s == #[trigger] (k * (size.h + GAP)) && s <= max0(page_h - size.h)) || (exists|i: int|
            0 <= i < others.len() && shares_column(#[trigger] others[i], x, size.w as int) && shelf_below(others[i])
                <= max0(page_h - size.h) && shelf_below(others[i]) == s)),
{
    let max_y = max0(page_h - size.h);
    let step = size.h + GAP;
    let base = self_shelves(max_y, step);
    let nb = neighbour_shelves(others, x, size.w as int, max_y);
    let all = shelf_seq(others, size, x, page_h);
    assert(all == base + nb);
    lemma_neighbour_shelves_members(others, x, size.w as int, max_y, s);
    if exists|k: int| k >= 0 && s == #[trigger] (k * step) && s <= max_y {
        let k = choose|k: int| k >= 0 && s == #[trigger] (k * step) && s <= max_y;
        vstd::arithmetic::div_mod::lemma_div_is_ordered(k * step, max_y, step);
        vstd::arithmetic::div_mod::lemma_div_multiples_vanish(k, step);
        assert(k * step == step * k) by (nonlinear_arith);
        assert(k < base.len());
        assert(all[k] == base[k]);
    }
    if exists|i: int|
        0 <= i < others.len() && shares_column(#[trigger] others[i], x, size.w as int) && shelf_below(others[i]) <= max_y
            && shelf_below(others[i]) == s {
        assert(nb.contains(s));
        let q = choose|q: int| 0 <= q < nb.len() && nb[q] == s;
        assert(all[base.len() + q] == s);
    }
    if all.contains(s) {
        let q = choose|q: int| 0 <= q < all.len() && all[q] == s;
        if q < base.len() {
            assert(all[q] == q * step);
            lemma_self_shelves_bounded(max_y, step, q);
            assert(s == q * step);
        } else {
            assert(nb[q - base.len()] == s);
            assert(nb.contains(s));
        }
    }
}

} // verus!
