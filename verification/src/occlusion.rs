//! Dock occlusion: how much of a dock's rectangle stays visible once the
//! rectangles of the windows above it are taken away, and whether that visible
//! part is small enough for the dock to count as occluded.
//!
//! Rectangles are half-open sets of integer pixel cells: a rectangle holds the
//! cells `(x, y)` with `left <= x < right` and `top <= y < bottom`.
use vstd::prelude::*;

use crate::text::text_equals;
use crate::vec_util::append_copies;

verus! {

/// The share of a dock, in percent, at or below which its visible part makes
/// the dock occluded.
pub const VISIBLE_AREA_PERCENT_THRESHOLD: i64 = 5;

/// A window rectangle as the window manager reports it.
#[derive(Debug, Clone, Copy, PartialEq, Eq, Structural)]
pub struct Rect {
    pub left: i32,
    pub top: i32,
    pub right: i32,
    pub bottom: i32,
}

/// A rectangle of pixel cells.
#[derive(Debug, Clone, Copy, PartialEq, Eq, Structural)]
pub struct RectArea {
    pub left: i32,
    pub top: i32,
    pub right: i32,
    pub bottom: i32,
}

/// A dock's content window and the rectangle that it covers.
#[derive(Debug, Clone, Copy, PartialEq, Eq, Structural)]
pub struct DockRegion {
    pub hwnd: isize,
    pub rect: Rect,
}

/// The cell `(x, y)` lies in `r`.
pub open spec fn in_rect(r: RectArea, x: int, y: int) -> bool {
    r.left <= x < r.right && r.top <= y < r.bottom
}

/// `r` holds at least one cell.
pub open spec fn is_proper(r: RectArea) -> bool {
    r.left < r.right && r.top < r.bottom
}

/// The number of cells in a proper rectangle.
pub open spec fn area_of(r: RectArea) -> int {
    (r.right - r.left) * (r.bottom - r.top)
}

/// The cell `(x, y)` lies in one of `rs`.
pub open spec fn in_any(rs: Seq<RectArea>, x: int, y: int) -> bool {
    exists|i: int| 0 <= i < rs.len() && in_rect(#[trigger] rs[i], x, y)
}

/// The number of cells `(x, y)` with `x0 <= x < x0 + n` on row `y` that satisfy `p`.
pub open spec fn row_count(p: spec_fn(int, int) -> bool, y: int, x0: int, n: nat) -> nat
    decreases n,
{
    if n == 0 {
        0
    } else {
        row_count(p, y, x0, (n - 1) as nat) + if p(x0 + n - 1, y) {
            1nat
        } else {
            0nat
        }
    }
}

/// The number of cells of the box `[x0, x0 + w) x [y0, y0 + h)` that satisfy `p`.
pub open spec fn grid_count(p: spec_fn(int, int) -> bool, x0: int, w: nat, y0: int, h: nat) -> nat
    decreases h,
{
    if h == 0 {
        0
    } else {
        grid_count(p, x0, w, y0, (h - 1) as nat) + row_count(p, y0 + h - 1, x0, w)
    }
}

/// The number of cells of the proper rectangle `box_` that satisfy `p`.
pub open spec fn cells_in(p: spec_fn(int, int) -> bool, box_: RectArea) -> nat {
    grid_count(
        p,
        box_.left as int,
        (box_.right - box_.left) as nat,
        box_.top as int,
        (box_.bottom - box_.top) as nat,
    )
}

/// The number of cells of `dock` that none of `occluders` covers.
pub open spec fn visible_cells(dock: RectArea, occluders: Seq<RectArea>) -> nat {
    cells_in(|x: int, y: int| in_rect(dock, x, y) && !in_any(occluders, x, y), dock)
}

/// The rectangles in `rs` share no cell.
pub open spec fn pairwise_disjoint(rs: Seq<RectArea>) -> bool {
    forall|i: int, j: int, x: int, y: int|
        0 <= i < rs.len() && 0 <= j < rs.len() && i != j && #[trigger] in_rect(rs[i], x, y)
            ==> !#[trigger] in_rect(rs[j], x, y)
}

/// Every rectangle in `rs` is proper and lies inside `outer`.
pub open spec fn all_proper_within(rs: Seq<RectArea>, outer: RectArea) -> bool {
    forall|i: int|
        0 <= i < rs.len() ==> {
            &&& is_proper(#[trigger] rs[i])
            &&& outer.left <= rs[i].left
            &&& rs[i].right <= outer.right
            &&& outer.top <= rs[i].top
            &&& rs[i].bottom <= outer.bottom
        }
}

/// The sum of the areas of `rs`.
pub open spec fn sum_areas(rs: Seq<RectArea>) -> int
    decreases rs.len(),
{
    if rs.len() == 0 {
        0
    } else {
        sum_areas(rs.drop_last()) + area_of(rs.last())
    }
}

/// `dock` is occluded by `occluders`: it is proper and at most
/// [`VISIBLE_AREA_PERCENT_THRESHOLD`] percent of its cells stay uncovered.
pub open spec fn occluded(dock: RectArea, occluders: Seq<RectArea>) -> bool {
    is_proper(dock) && 100 * visible_cells(dock, occluders) <= VISIBLE_AREA_PERCENT_THRESHOLD
        * area_of(dock)
}

/// The width and the height of `r` fit in an `i32`.
pub open spec fn fits_i32(r: RectArea) -> bool {
    r.right - r.left <= i32::MAX && r.bottom - r.top <= i32::MAX
}

/// The cell rectangle of a window rectangle: `None` unless it is proper.
pub open spec fn spec_from_rect(rect: Rect) -> Option<RectArea> {
    if rect.left < rect.right && rect.top < rect.bottom {
        Some(RectArea { left: rect.left, top: rect.top, right: rect.right, bottom: rect.bottom })
    } else {
        None
    }
}

// ---------------------------------------------------------------------------
// Counting lemmas
// ---------------------------------------------------------------------------

/// `p` and `q` agree on the cell `(x, y)`.
pub open spec fn agree_at(p: spec_fn(int, int) -> bool, q: spec_fn(int, int) -> bool, x: int, y: int) -> bool {
    p(x, y) == q(x, y)
}

/// On the cell `(x, y)`, `r` holds exactly when one of `p` and `q` does, and
/// they do not both hold.
pub open spec fn union_at(
    p: spec_fn(int, int) -> bool,
    q: spec_fn(int, int) -> bool,
    r: spec_fn(int, int) -> bool,
    x: int,
    y: int,
) -> bool {
    !(p(x, y) && q(x, y)) && (r(x, y) == (p(x, y) || q(x, y)))
}

/// On the cell `(x, y)`, `p` implies `q`.
pub open spec fn implies_at(p: spec_fn(int, int) -> bool, q: spec_fn(int, int) -> bool, x: int, y: int) -> bool {
    p(x, y) ==> q(x, y)
}

proof fn lemma_row_ext(p: spec_fn(int, int) -> bool, q: spec_fn(int, int) -> bool, y: int, x0: int, n: nat)
    requires
        forall|x: int| x0 <= x < x0 + n ==> #[trigger] agree_at(p, q, x, y),
    ensures
        row_count(p, y, x0, n) == row_count(q, y, x0, n),
    decreases n,
{
    if n > 0 {
        lemma_row_ext(p, q, y, x0, (n - 1) as nat);
        assert(agree_at(p, q, x0 + n - 1, y));
    }
}

/// Two predicates that agree on every cell of a box count the same cells there.
pub proof fn lemma_grid_ext(
    p: spec_fn(int, int) -> bool,
    q: spec_fn(int, int) -> bool,
    x0: int,
    w: nat,
    y0: int,
    h: nat,
)
    requires
        forall|x: int, y: int| x0 <= x < x0 + w && y0 <= y < y0 + h ==> #[trigger] agree_at(p, q, x, y),
    ensures
        grid_count(p, x0, w, y0, h) == grid_count(q, x0, w, y0, h),
    decreases h,
{
    if h > 0 {
        lemma_grid_ext(p, q, x0, w, y0, (h - 1) as nat);
        let y = y0 + h - 1;
        assert forall|x: int| x0 <= x < x0 + w implies #[trigger] agree_at(p, q, x, y) by {
            assert(agree_at(p, q, x, y));
        }
        lemma_row_ext(p, q, y, x0, w);
    }
}

proof fn lemma_row_add(
    p: spec_fn(int, int) -> bool,
    q: spec_fn(int, int) -> bool,
    r: spec_fn(int, int) -> bool,
    y: int,
    x0: int,
    n: nat,
)
    requires
        forall|x: int| x0 <= x < x0 + n ==> #[trigger] union_at(p, q, r, x, y),
    ensures
        row_count(r, y, x0, n) == row_count(p, y, x0, n) + row_count(q, y, x0, n),
    decreases n,
{
    if n > 0 {
        lemma_row_add(p, q, r, y, x0, (n - 1) as nat);
        let x = x0 + n - 1;
        assert(union_at(p, q, r, x, y));
    }
}

/// When `r` is the union of two predicates that never hold on the same cell,
/// `r` counts as many cells of a box as the two together.
pub proof fn lemma_grid_add(
    p: spec_fn(int, int) -> bool,
    q: spec_fn(int, int) -> bool,
    r: spec_fn(int, int) -> bool,
    x0: int,
    w: nat,
    y0: int,
    h: nat,
)
    requires
        forall|x: int, y: int|
            x0 <= x < x0 + w && y0 <= y < y0 + h ==> #[trigger] union_at(p, q, r, x, y),
    ensures
        grid_count(r, x0, w, y0, h) == grid_count(p, x0, w, y0, h) + grid_count(q, x0, w, y0, h),
    decreases h,
{
    if h > 0 {
        lemma_grid_add(p, q, r, x0, w, y0, (h - 1) as nat);
        let y = y0 + h - 1;
        assert forall|x: int| x0 <= x < x0 + w implies #[trigger] union_at(p, q, r, x, y) by {
            assert(union_at(p, q, r, x, y));
        }
        lemma_row_add(p, q, r, y, x0, w);
    }
}

proof fn lemma_row_le(p: spec_fn(int, int) -> bool, q: spec_fn(int, int) -> bool, y: int, x0: int, n: nat)
    requires
        forall|x: int| x0 <= x < x0 + n ==> #[trigger] implies_at(p, q, x, y),
    ensures
        row_count(p, y, x0, n) <= row_count(q, y, x0, n),
        row_count(p, y, x0, n) <= n,
    decreases n,
{
    if n > 0 {
        lemma_row_le(p, q, y, x0, (n - 1) as nat);
        assert(implies_at(p, q, x0 + n - 1, y));
    }
}

/// A predicate that implies another on every cell of a box counts no more
/// cells there, and no predicate counts more cells than the box has.
pub proof fn lemma_grid_le(
    p: spec_fn(int, int) -> bool,
    q: spec_fn(int, int) -> bool,
    x0: int,
    w: nat,
    y0: int,
    h: nat,
)
    requires
        forall|x: int, y: int| x0 <= x < x0 + w && y0 <= y < y0 + h ==> #[trigger] implies_at(p, q, x, y),
    ensures
        grid_count(p, x0, w, y0, h) <= grid_count(q, x0, w, y0, h),
        grid_count(p, x0, w, y0, h) <= w * h,
    decreases h,
{
    if h > 0 {
        lemma_grid_le(p, q, x0, w, y0, (h - 1) as nat);
        let y = y0 + h - 1;
        assert forall|x: int| x0 <= x < x0 + w implies #[trigger] implies_at(p, q, x, y) by {
            assert(implies_at(p, q, x, y));
        }
        lemma_row_le(p, q, y, x0, w);
        assert(w * (h - 1) + w == w * h) by (nonlinear_arith);
    }
}

proof fn lemma_row_rect(r: RectArea, y: int, x0: int, n: nat)
    requires
        x0 <= r.left,
        r.left <= r.right,
    ensures
        row_count(|x: int, yy: int| in_rect(r, x, yy), y, x0, n) == if r.top <= y < r.bottom {
            if x0 + n <= r.left {
                0
            } else if x0 + n <= r.right {
                x0 + n - r.left
            } else {
                r.right - r.left
            }
        } else {
            0
        },
    decreases n,
{
    if n > 0 {
        lemma_row_rect(r, y, x0, (n - 1) as nat);
    }
}

proof fn lemma_grid_rect(r: RectArea, x0: int, w: nat, y0: int, h: nat)
    requires
        x0 <= r.left,
        r.left <= r.right <= x0 + w,
        y0 <= r.top,
        r.top <= r.bottom,
    ensures
        grid_count(|x: int, y: int| in_rect(r, x, y), x0, w, y0, h) == (r.right - r.left) * (
        if y0 + h <= r.top {
            0
        } else if y0 + h <= r.bottom {
            y0 + h - r.top
        } else {
            r.bottom - r.top
        }),
    decreases h,
{
    if h > 0 {
        lemma_grid_rect(r, x0, w, y0, (h - 1) as nat);
        lemma_row_rect(r, y0 + h - 1, x0, w);
        let wd = r.right - r.left;
        let k = if y0 + h - 1 <= r.top {
            0
        } else if y0 + h - 1 <= r.bottom {
            y0 + h - 1 - r.top
        } else {
            r.bottom - r.top
        };
        assert(wd * k + wd == wd * (k + 1)) by (nonlinear_arith);
    }
}

/// A rectangle inside a box covers exactly its area of the box's cells.
pub proof fn lemma_cells_of_rect(r: RectArea, box_: RectArea)
    requires
        is_proper(r),
        box_.left <= r.left,
        r.right <= box_.right,
        box_.top <= r.top,
        r.bottom <= box_.bottom,
    ensures
        cells_in(|x: int, y: int| in_rect(r, x, y), box_) == area_of(r),
{
    lemma_grid_rect(
        r,
        box_.left as int,
        (box_.right - box_.left) as nat,
        box_.top as int,
        (box_.bottom - box_.top) as nat,
    );
}

/// Pairwise disjoint rectangles inside a box cover, together, as many of the
/// box's cells as the sum of their areas.
pub proof fn lemma_cells_of_disjoint(rs: Seq<RectArea>, box_: RectArea)
    requires
        pairwise_disjoint(rs),
        all_proper_within(rs, box_),
        is_proper(box_),
    ensures
        cells_in(|x: int, y: int| in_any(rs, x, y), box_) == sum_areas(rs),
    decreases rs.len(),
{
    let x0 = box_.left as int;
    let w = (box_.right - box_.left) as nat;
    let y0 = box_.top as int;
    let h = (box_.bottom - box_.top) as nat;
    if rs.len() == 0 {
        let none = |x: int, y: int| in_any(rs, x, y);
        let f = |x: int, y: int| false;
        lemma_grid_le(none, f, x0, w, y0, h);
        lemma_grid_le(f, none, x0, w, y0, h);
        lemma_grid_zero(x0, w, y0, h);
    } else {
        let init = rs.drop_last();
        let last = rs.last();
        assert(pairwise_disjoint(init)) by {
            assert forall|i: int, j: int, x: int, y: int|
                0 <= i < init.len() && 0 <= j < init.len() && i != j && #[trigger] in_rect(
                    init[i],
                    x,
                    y,
                ) implies !#[trigger] in_rect(init[j], x, y) by {
                assert(init[i] == rs[i] && init[j] == rs[j]);
            }
        }
        assert(all_proper_within(init, box_)) by {
            assert forall|i: int| 0 <= i < init.len() implies {
                &&& is_proper(#[trigger] init[i])
                &&& box_.left <= init[i].left
                &&& init[i].right <= box_.right
                &&& box_.top <= init[i].top
                &&& init[i].bottom <= box_.bottom
            } by {
                assert(init[i] == rs[i]);
            }
        }
        lemma_cells_of_disjoint(init, box_);
        assert(is_proper(rs[rs.len() - 1]));
        lemma_cells_of_rect(last, box_);
        let p = |x: int, y: int| in_any(init, x, y);
        let q = |x: int, y: int| in_rect(last, x, y);
        let r = |x: int, y: int| in_any(rs, x, y);
        assert forall|x: int, y: int| x0 <= x < x0 + w && y0 <= y < y0 + h implies #[trigger] union_at(p, q, r, x, y) by {
            if p(x, y) {
                let i = choose|i: int| 0 <= i < init.len() && in_rect(#[trigger] init[i], x, y);
                assert(rs[i] == init[i]);
                assert(in_rect(rs[i], x, y));
                assert(!in_rect(rs[rs.len() - 1], x, y));
            }
            if r(x, y) {
                let i = choose|i: int| 0 <= i < rs.len() && in_rect(#[trigger] rs[i], x, y);
                if i < rs.len() - 1 {
                    assert(init[i] == rs[i]);
                }
            }
            if q(x, y) {
                assert(in_rect(rs[rs.len() - 1], x, y));
            }
        }
        lemma_grid_add(p, q, r, x0, w, y0, h);
    }
}

proof fn lemma_row_zero(y: int, x0: int, n: nat)
    ensures
        row_count(|x: int, yy: int| false, y, x0, n) == 0,
    decreases n,
{
    if n > 0 {
        lemma_row_zero(y, x0, (n - 1) as nat);
    }
}

proof fn lemma_grid_zero(x0: int, w: nat, y0: int, h: nat)
    ensures
        grid_count(|x: int, y: int| false, x0, w, y0, h) == 0,
    decreases h,
{
    if h > 0 {
        lemma_grid_zero(x0, w, y0, (h - 1) as nat);
        lemma_row_zero(y0 + h - 1, x0, w);
    }
}


proof fn lemma_sum_areas_prefix(rs: Seq<RectArea>, i: int)
    requires
        0 <= i <= rs.len(),
        forall|j: int| 0 <= j < rs.len() ==> is_proper(#[trigger] rs[j]),
    ensures
        0 <= sum_areas(rs.take(i)) <= sum_areas(rs),
    decreases rs.len() - i,
{
    if i < rs.len() {
        lemma_sum_areas_prefix(rs, i + 1);
        assert(rs.take(i + 1).drop_last() =~= rs.take(i));
        let t = rs.take(i);
        assert forall|j: int| 0 <= j < t.len() implies is_proper(#[trigger] t[j]) by {
            assert(t[j] == rs[j]);
        }
        lemma_sum_areas_nonneg(t);
        let r = rs[i];
        assert(is_proper(r));
        assert(area_of(r) > 0) by (nonlinear_arith)
            requires
                r.right - r.left > 0,
                r.bottom - r.top > 0,
        ;
    } else {
        assert(rs.take(i) =~= rs);
        lemma_sum_areas_nonneg(rs);
    }
}

proof fn lemma_sum_areas_nonneg(rs: Seq<RectArea>)
    requires
        forall|j: int| 0 <= j < rs.len() ==> is_proper(#[trigger] rs[j]),
    ensures
        sum_areas(rs) >= 0,
    decreases rs.len(),
{
    if rs.len() > 0 {
        let init = rs.drop_last();
        assert forall|j: int| 0 <= j < init.len() implies is_proper(#[trigger] init[j]) by {
            assert(init[j] == rs[j]);
        }
        lemma_sum_areas_nonneg(init);
        let r = rs[rs.len() - 1];
        assert(is_proper(r));
        assert(area_of(r) > 0) by (nonlinear_arith)
            requires
                r.right - r.left > 0,
                r.bottom - r.top > 0,
        ;
    }
}

/// A sequence holding one rectangle covers the cells of that rectangle.
proof fn lemma_in_any_single(r: RectArea)
    ensures
        forall|x: int, y: int| #[trigger] in_any(seq![r], x, y) == in_rect(r, x, y),
{
    assert forall|x: int, y: int| #[trigger] in_any(seq![r], x, y) == in_rect(r, x, y) by {
        if in_rect(r, x, y) {
            assert(seq![r][0] == r);
        }
    }
}

/// The parts that cutting `o` out of `s` gives, in this order: the strip
/// above the overlap, the strip below it, then the strips left and right of
/// it over the overlap's rows, each only when it holds a cell; `s` itself
/// when the two do not overlap.
pub open spec fn subtract_parts(s: RectArea, o: RectArea) -> Seq<RectArea> {
    let left = if s.left >= o.left { s.left } else { o.left };
    let top = if s.top >= o.top { s.top } else { o.top };
    let right = if s.right <= o.right { s.right } else { o.right };
    let bottom = if s.bottom <= o.bottom { s.bottom } else { o.bottom };
    if left >= right || top >= bottom {
        seq![s]
    } else {
        opt_rect(s.top < top, RectArea { left: s.left, top: s.top, right: s.right, bottom: top })
            + opt_rect(
            bottom < s.bottom,
            RectArea { left: s.left, top: bottom, right: s.right, bottom: s.bottom },
        ) + opt_rect(s.left < left, RectArea { left: s.left, top, right: left, bottom }) + opt_rect(
            right < s.right,
            RectArea { left: right, top, right: s.right, bottom },
        )
    }
}

/// The one-rectangle sequence `[r]` when `keep` holds, the empty one otherwise.
pub open spec fn opt_rect(keep: bool, r: RectArea) -> Seq<RectArea> {
    if keep {
        seq![r]
    } else {
        Seq::empty()
    }
}

proof fn lemma_opt_rect(keep: bool, r: RectArea)
    ensures
        forall|x: int, y: int| #[trigger] in_any(opt_rect(keep, r), x, y) == (keep && in_rect(r, x, y)),
        pairwise_disjoint(opt_rect(keep, r)),
        opt_rect(keep, r).len() <= 1,
        keep ==> opt_rect(keep, r)[0] == r,
{
    lemma_in_any_single(r);
}

/// The cells of a concatenation are the cells of its two halves; two
/// disjoint families with no common cell make one disjoint family.
proof fn lemma_concat(a: Seq<RectArea>, b: Seq<RectArea>, outer: RectArea)
    ensures
        forall|x: int, y: int| #[trigger] in_any(a + b, x, y) == (in_any(a, x, y) || in_any(b, x, y)),
        pairwise_disjoint(a) && pairwise_disjoint(b) && (forall|x: int, y: int| !(#[trigger] in_any(a, x, y) && in_any(b, x, y)))
            ==> pairwise_disjoint(a + b),
        all_proper_within(a, outer) && all_proper_within(b, outer) ==> all_proper_within(a + b, outer),
{
    let ab = a + b;
    assert forall|x: int, y: int| #[trigger] in_any(ab, x, y) == (in_any(a, x, y) || in_any(b, x, y)) by {
        if in_any(ab, x, y) {
            let i = choose|i: int| 0 <= i < ab.len() && in_rect(#[trigger] ab[i], x, y);
            if i < a.len() {
                assert(ab[i] == a[i]);
            } else {
                assert(ab[i] == b[i - a.len()]);
            }
        }
        if in_any(a, x, y) {
            let i = choose|i: int| 0 <= i < a.len() && in_rect(#[trigger] a[i], x, y);
            assert(ab[i] == a[i]);
        }
        if in_any(b, x, y) {
            let i = choose|i: int| 0 <= i < b.len() && in_rect(#[trigger] b[i], x, y);
            assert(ab[a.len() + i] == b[i]);
        }
    }
    if pairwise_disjoint(a) && pairwise_disjoint(b) && (forall|x: int, y: int| !(#[trigger] in_any(a, x, y) && in_any(b, x, y))) {
        assert forall|i: int, j: int, x: int, y: int|
            0 <= i < ab.len() && 0 <= j < ab.len() && i != j && #[trigger] in_rect(ab[i], x, y)
                implies !#[trigger] in_rect(ab[j], x, y) by {
            if i < a.len() && j < a.len() {
                assert(ab[i] == a[i] && ab[j] == a[j]);
            } else if i >= a.len() && j >= a.len() {
                assert(ab[i] == b[i - a.len()] && ab[j] == b[j - a.len()]);
            } else if i < a.len() {
                assert(ab[i] == a[i] && ab[j] == b[j - a.len()]);
                if in_rect(ab[j], x, y) {
                    assert(in_any(a, x, y));
                    assert(in_any(b, x, y));
                }
            } else {
                assert(ab[j] == a[j] && ab[i] == b[i - a.len()]);
                if in_rect(ab[j], x, y) {
                    assert(in_any(a, x, y));
                    assert(in_any(b, x, y));
                }
            }
        }
    }
    if all_proper_within(a, outer) && all_proper_within(b, outer) {
        assert forall|i: int| 0 <= i < ab.len() implies {
            &&& is_proper(#[trigger] ab[i])
            &&& outer.left <= ab[i].left
            &&& ab[i].right <= outer.right
            &&& outer.top <= ab[i].top
            &&& ab[i].bottom <= outer.bottom
        } by {
            if i < a.len() {
                assert(ab[i] == a[i]);
            } else {
                assert(ab[i] == b[i - a.len()]);
            }
        }
    }
}

impl RectArea {
    /// The cell rectangle of a window rectangle, when the window rectangle
    /// holds at least one cell.
    pub fn from_rect(rect: Rect) -> (res: Option<Self>)
        ensures
            res == spec_from_rect(rect),
    {
        if rect.left < rect.right && rect.top < rect.bottom {
            Some(RectArea { left: rect.left, top: rect.top, right: rect.right, bottom: rect.bottom })
        } else {
            None
        }
    }

    /// The number of cells in the rectangle: width times height.
    pub fn area(&self) -> (res: i64)
        requires
            i32::MIN <= self.right - self.left <= i32::MAX,
            i32::MIN <= self.bottom - self.top <= i32::MAX,
        ensures
            res == area_of(*self),
    {
        let w = (self.right - self.left) as i64;
        let h = (self.bottom - self.top) as i64;
        assert(-0x4000_0000_0000_0000 <= w * h <= 0x4000_0000_0000_0000) by (nonlinear_arith)
            requires
                -0x8000_0000 <= w <= 0x8000_0000,
                -0x8000_0000 <= h <= 0x8000_0000,
        ;
        w * h
    }

    /// The parts of `self` that `other` does not cover, as
    /// [`subtract_parts`] lists them: at most four pairwise disjoint
    /// rectangles, each inside `self` when `self` is proper, that
    /// together hold exactly the cells of `self` outside `other`. When the two
    /// share no cell, the only part is `self`.
    pub fn subtract(self, other: Self) -> (parts: Vec<Self>)
        ensures
            parts@ == subtract_parts(self, other),
            parts@.len() <= 4,
            forall|x: int, y: int|
                #[trigger] in_any(parts@, x, y) == (in_rect(self, x, y) && !in_rect(other, x, y)),
            pairwise_disjoint(parts@),
            is_proper(self) ==> all_proper_within(parts@, self),
            (forall|x: int, y: int| !(in_rect(self, x, y) && in_rect(other, x, y))) ==> parts@
                == seq![self],
    {
        let left = if self.left >= other.left { self.left } else { other.left };
        let top = if self.top >= other.top { self.top } else { other.top };
        let right = if self.right <= other.right { self.right } else { other.right };
        let bottom = if self.bottom <= other.bottom { self.bottom } else { other.bottom };
        if left >= right || top >= bottom {
            let parts = vec![self];
            proof {
                lemma_in_any_single(self);
                assert forall|x: int, y: int| !(in_rect(self, x, y) && in_rect(other, x, y)) by {}
            }
            return parts;
        }
        proof {
            assert(in_rect(self, left as int, top as int) && in_rect(other, left as int, top as int));
        }
        let ghost a = RectArea { left: self.left, top: self.top, right: self.right, bottom: top };
        let ghost b = RectArea { left: self.left, top: bottom, right: self.right, bottom: self.bottom };
        let ghost c = RectArea { left: self.left, top, right: left, bottom };
        let ghost d = RectArea { left: right, top, right: self.right, bottom };
        let ghost sa = opt_rect(self.top < top, a);
        let ghost sb = opt_rect(bottom < self.bottom, b);
        let ghost sc = opt_rect(self.left < left, c);
        let ghost sd = opt_rect(right < self.right, d);
        let mut parts: Vec<Self> = Vec::new();
        if self.top < top {
            parts.push(RectArea { left: self.left, top: self.top, right: self.right, bottom: top });
        }
        assert(parts@ =~= sa);
        if bottom < self.bottom {
            parts.push(RectArea { left: self.left, top: bottom, right: self.right, bottom: self.bottom });
        }
        assert(parts@ =~= sa + sb);
        if self.left < left {
            parts.push(RectArea { left: self.left, top, right: left, bottom });
        }
        assert(parts@ =~= sa + sb + sc);
        if right < self.right {
            parts.push(RectArea { left: right, top, right: self.right, bottom });
        }
        assert(parts@ =~= sa + sb + sc + sd);
        proof {
            lemma_opt_rect(self.top < top, a);
            lemma_opt_rect(bottom < self.bottom, b);
            lemma_opt_rect(self.left < left, c);
            lemma_opt_rect(right < self.right, d);
            lemma_concat(sa, sb, self);
            lemma_concat(sa + sb, sc, self);
            lemma_concat(sa + sb + sc, sd, self);
        }
        parts
    }
}

/// The number of cells of `dock` that none of `occluders` covers, worked out
/// by cutting each occluder out of what stays visible so far.
pub fn visible_area_after_occlusion(dock: RectArea, occluders: &[RectArea]) -> (res: i64)
    requires
        is_proper(dock),
        fits_i32(dock),
    ensures
        res == visible_cells(dock, occluders@),
{
    let mut visible: Vec<RectArea> = vec![dock];
    let n = occluders.len();
    let mut k: usize = 0;
    proof {
        lemma_in_any_single(dock);
        assert forall|x: int, y: int| #[trigger] in_any(visible@, x, y) == (in_rect(dock, x, y)
            && !in_any(occluders@.take(0), x, y)) by {
            if in_any(occluders@.take(0), x, y) {
                let i = choose|i: int| 0 <= i < 0 && in_rect(#[trigger] occluders@.take(0)[i], x, y);
            }
        }
        assert(pairwise_disjoint(visible@));
        assert(all_proper_within(visible@, dock));
    }
    while k < n && visible.len() > 0
        invariant
            k <= n == occluders@.len(),
            is_proper(dock),
            fits_i32(dock),
            pairwise_disjoint(visible@),
            all_proper_within(visible@, dock),
            forall|x: int, y: int| #[trigger] in_any(visible@, x, y) == (in_rect(dock, x, y)
                && !in_any(occluders@.take(k as int), x, y)),
        decreases n - k,
    {
        let occluder = occluders[k];
        let mut next: Vec<RectArea> = Vec::new();
        let mut j: usize = 0;
        while j < visible.len()
            invariant
                k < n == occluders@.len(),
                occluder == occluders@[k as int],
                j <= visible@.len(),
                is_proper(dock),
                pairwise_disjoint(visible@),
                all_proper_within(visible@, dock),
                pairwise_disjoint(next@),
                all_proper_within(next@, dock),
                forall|x: int, y: int| #[trigger] in_any(next@, x, y) == ((exists|m: int| 0 <= m < j && in_rect(#[trigger] visible@[m], x, y)) && !in_rect(occluder, x, y)),
            decreases visible@.len() - j,
        {
            let source = visible[j];
            let parts = source.subtract(occluder);
            let ghost before = next@;
            append_copies(&mut next, parts.as_slice());
            proof {
                lemma_extend_disjoint(visible@, j as int, before, parts@, dock, occluder);
            }
            j += 1;
        }
        proof {
            assert forall|x: int, y: int| #[trigger] in_any(next@, x, y) == (in_rect(dock, x, y)
                && !in_any(occluders@.take(k + 1), x, y)) by {
                let old_take = occluders@.take(k as int);
                let new_take = occluders@.take(k + 1);
                assert(new_take =~= old_take.push(occluder));
                if in_any(new_take, x, y) && !in_any(old_take, x, y) {
                    let i = choose|i: int| 0 <= i < new_take.len() && in_rect(#[trigger] new_take[i], x, y);
                    if i < k {
                        assert(old_take[i] == new_take[i]);
                    }
                    assert(in_rect(occluder, x, y));
                }
                if in_any(old_take, x, y) {
                    let i = choose|i: int| 0 <= i < old_take.len() && in_rect(#[trigger] old_take[i], x, y);
                    assert(new_take[i] == old_take[i]);
                }
                if in_rect(occluder, x, y) {
                    assert(new_take[k as int] == occluder);
                }
                if (exists|m: int| 0 <= m < visible@.len() && in_rect(#[trigger] visible@[m], x, y)) {
                    assert(in_any(visible@, x, y));
                }
                if in_any(visible@, x, y) {
                    let m = choose|m: int| 0 <= m < visible@.len() && in_rect(#[trigger] visible@[m], x, y);
                    assert(exists|m: int| 0 <= m < visible@.len() && in_rect(#[trigger] visible@[m], x, y));
                }
            }
        }
        visible = next;
        k += 1;
    }
    let ghost occ = occluders@;
    proof {
        if k < n {
            assert(visible@.len() == 0);
            assert forall|x: int, y: int| !(in_rect(dock, x, y) && !in_any(occ, x, y)) by {
                if in_rect(dock, x, y) && !in_any(occ, x, y) {
                    if in_any(occ.take(k as int), x, y) {
                        let i = choose|i: int| 0 <= i < k && in_rect(#[trigger] occ.take(k as int)[i], x, y);
                        assert(occ[i] == occ.take(k as int)[i]);
                    }
                    assert(!in_any(visible@, x, y));
                }
            }
        } else {
            assert(occ.take(k as int) =~= occ);
        }
        let x0 = dock.left as int;
        let w = (dock.right - dock.left) as nat;
        let y0 = dock.top as int;
        let h = (dock.bottom - dock.top) as nat;
        let vis = |x: int, y: int| in_any(visible@, x, y);
        let target = |x: int, y: int| in_rect(dock, x, y) && !in_any(occ, x, y);
        assert forall|x: int, y: int| x0 <= x < x0 + w && y0 <= y < y0 + h implies #[trigger] agree_at(vis, target, x, y) by {
            if k < n {
                assert(!in_any(visible@, x, y));
            }
        }
        lemma_grid_ext(vis, target, x0, w, y0, h);
        lemma_cells_of_disjoint(visible@, dock);
        let everything = |x: int, y: int| true;
        assert forall|x: int, y: int| x0 <= x < x0 + w && y0 <= y < y0 + h implies #[trigger] implies_at(target, everything, x, y) by {}
        lemma_grid_le(target, everything, x0, w, y0, h);
        assert(w * h == area_of(dock));
        assert(area_of(dock) <= 0x4000_0000_0000_0000) by (nonlinear_arith)
            requires
                0 < dock.right - dock.left <= 0x8000_0000,
                0 < dock.bottom - dock.top <= 0x8000_0000,
        ;
        assert forall|j: int| 0 <= j < visible@.len() implies is_proper(#[trigger] visible@[j]) by {}
    }
    let mut total: i64 = 0;
    let mut i: usize = 0;
    while i < visible.len()
        invariant
            i <= visible@.len(),
            all_proper_within(visible@, dock),
            fits_i32(dock),
            forall|j: int| 0 <= j < visible@.len() ==> is_proper(#[trigger] visible@[j]),
            sum_areas(visible@) <= 0x4000_0000_0000_0000,
            total == sum_areas(visible@.take(i as int)),
        decreases visible@.len() - i,
    {
        let r = visible[i];
        proof {
            lemma_sum_areas_prefix(visible@, i + 1);
            assert(visible@.take(i + 1).drop_last() =~= visible@.take(i as int));
            assert(visible@[i as int] == r);
        }
        total = total + r.area();
        i += 1;
    }
    proof {
        assert(visible@.take(visible@.len() as int) =~= visible@);
    }
    total
}

proof fn lemma_extend_disjoint(
    visible: Seq<RectArea>,
    j: int,
    before: Seq<RectArea>,
    parts: Seq<RectArea>,
    dock: RectArea,
    occluder: RectArea,
)
    requires
        0 <= j < visible.len(),
        is_proper(dock),
        pairwise_disjoint(visible),
        all_proper_within(visible, dock),
        pairwise_disjoint(before),
        all_proper_within(before, dock),
        forall|x: int, y: int| #[trigger] in_any(before, x, y) == ((exists|m: int| 0 <= m < j && in_rect(#[trigger] visible[m], x, y)) && !in_rect(occluder, x, y)),
        all_proper_within(parts, visible[j]),
        pairwise_disjoint(parts),
        forall|x: int, y: int| #[trigger] in_any(parts, x, y) == (in_rect(visible[j], x, y) && !in_rect(occluder, x, y)),
    ensures
        pairwise_disjoint(before + parts),
        all_proper_within(before + parts, dock),
        forall|x: int, y: int| #[trigger] in_any(before + parts, x, y) == ((exists|m: int| 0 <= m < j + 1 && in_rect(#[trigger] visible[m], x, y)) && !in_rect(occluder, x, y)),
{
    let src = visible[j];
    assert(all_proper_within(parts, dock)) by {
        assert forall|i: int| 0 <= i < parts.len() implies {
            &&& is_proper(#[trigger] parts[i])
            &&& dock.left <= parts[i].left
            &&& parts[i].right <= dock.right
            &&& dock.top <= parts[i].top
            &&& parts[i].bottom <= dock.bottom
        } by {}
    }
    assert forall|x: int, y: int| !(#[trigger] in_any(before, x, y) && in_any(parts, x, y)) by {
        if in_any(before, x, y) && in_any(parts, x, y) {
            let m = choose|m: int| 0 <= m < j && in_rect(#[trigger] visible[m], x, y);
            assert(in_rect(visible[j], x, y));
        }
    }
    lemma_concat(before, parts, dock);
    assert forall|x: int, y: int| #[trigger] in_any(before + parts, x, y) == ((exists|m: int| 0 <= m < j + 1 && in_rect(#[trigger] visible[m], x, y)) && !in_rect(occluder, x, y)) by {
        if (exists|m: int| 0 <= m < j + 1 && in_rect(#[trigger] visible[m], x, y)) && !in_rect(occluder, x, y) {
            let m = choose|m: int| 0 <= m < j + 1 && in_rect(#[trigger] visible[m], x, y);
            if m < j {
                assert(in_any(before, x, y));
            } else {
                assert(in_any(parts, x, y));
            }
        }
        if in_any(before, x, y) {
            let m = choose|m: int| 0 <= m < j && in_rect(#[trigger] visible[m], x, y);
            assert(0 <= m < j + 1);
        }
        if in_any(parts, x, y) {
            assert(in_rect(visible[j], x, y));
        }
    }
}

/// What [`is_dock_occluded`] answers for a dock rectangle.
pub open spec fn dock_rect_occluded(dock: Rect, occluders: Seq<RectArea>) -> bool {
    match spec_from_rect(dock) {
        Some(d) => occluded(d, occluders),
        None => false,
    }
}

/// The arithmetic of [`is_dock_occluded`] stays within `i64` for this dock:
/// its width and height fit in an `i32`, and neither a hundred times its
/// visible cells nor five times its area leave the `i64` range.
pub open spec fn occlusion_check_fits(dock: Rect, occluders: Seq<RectArea>) -> bool {
    match spec_from_rect(dock) {
        Some(d) => fits_i32(d) && 100 * visible_cells(d, occluders) <= i64::MAX
            && VISIBLE_AREA_PERCENT_THRESHOLD * area_of(d) <= i64::MAX,
        None => true,
    }
}

/// Whether the dock with rectangle `dock` counts as occluded by the windows
/// with rectangles `occluders`: an empty dock never does; otherwise it does
/// when at most 5 percent of its cells stay uncovered.
pub fn is_dock_occluded(dock: &Rect, occluders: &[RectArea]) -> (res: bool)
    requires
        occlusion_check_fits(*dock, occluders@),
    ensures
        res == dock_rect_occluded(*dock, occluders@),
{
    match RectArea::from_rect(*dock) {
        Some(d) => {
            let visible = visible_area_after_occlusion(d, occluders);
            visible * 100 <= d.area() * VISIBLE_AREA_PERCENT_THRESHOLD
        },
        None => false,
    }
}

/// For each dock region, its content window and whether the dock is
/// occluded by `occluders`, in the order of `docks`.
pub fn dock_occlusions(docks: &[DockRegion], occluders: &[RectArea]) -> (res: Vec<(isize, bool)>)
    requires
        forall|i: int| 0 <= i < docks@.len() ==> occlusion_check_fits(#[trigger] docks@[i].rect, occluders@),
    ensures
        res@.len() == docks@.len(),
        forall|i: int| 0 <= i < docks@.len() ==> #[trigger] res@[i] == (docks@[i].hwnd, dock_rect_occluded(docks@[i].rect, occluders@)),
{
    let mut res: Vec<(isize, bool)> = Vec::new();
    let mut i: usize = 0;
    while i < docks.len()
        invariant
            i <= docks@.len(),
            res@.len() == i,
            forall|k: int| 0 <= k < docks@.len() ==> occlusion_check_fits(#[trigger] docks@[k].rect, occluders@),
            forall|k: int| 0 <= k < i ==> #[trigger] res@[k] == (docks@[k].hwnd, dock_rect_occluded(docks@[k].rect, occluders@)),
        decreases docks@.len() - i,
    {
        let dock = docks[i];
        let occluded = is_dock_occluded(&dock.rect, occluders);
        res.push((dock.hwnd, occluded));
        i += 1;
    }
    res
}

/// Window classes whose windows never occlude a dock: the desktop and
/// taskbar windows, and the docks and video hosts themselves.
pub open spec fn is_ignored_class(name: Seq<char>) -> bool {
    ||| name == "Progman"@
    ||| name == "WorkerW"@
    ||| name == "Shell_TrayWnd"@
    ||| name == "Shell_SecondaryTrayWnd"@
    ||| name == "X-Desk-Dock-Class"@
    ||| name == "X-Desk-VideoHost-Class"@
}

/// The extended window styles that keep a window from occluding: tool
/// windows (`0x80`) and click-through windows (`0x20`).
pub open spec fn has_non_occluding_style(ex_style: u32) -> bool {
    ex_style & 0x80 != 0 || ex_style & 0x20 != 0
}

/// Whether a window of class `name` is ignored when docks are checked.
pub fn is_ignored_window_class(name: &str) -> (res: bool)
    ensures
        res == is_ignored_class(name@),
{
    let chars = crate::text::chars_of(name);
    let c = chars.as_slice();
    text_equals(c, "Progman") || text_equals(c, "WorkerW") || text_equals(c, "Shell_TrayWnd") || text_equals(c, "Shell_SecondaryTrayWnd")
        || text_equals(c, "X-Desk-Dock-Class") || text_equals(c, "X-Desk-VideoHost-Class")
}

/// Whether a window in the given state counts as a regular visible window:
/// shown, not minimized, not cloaked, and with an extended style that is
/// known and has neither of [`has_non_occluding_style`]'s bits.
pub fn is_regular_visible_window(visible: bool, iconic: bool, cloaked: bool, ex_style: Option<u32>) -> (res: bool)
    ensures
        res == (visible && !iconic && !cloaked && match ex_style {
            Some(style) => !has_non_occluding_style(style),
            None => false,
        }),
{
    if !visible || iconic {
        return false;
    }
    if cloaked {
        return false;
    }
    match ex_style {
        Some(style) => !(style & 0x80 != 0 || style & 0x20 != 0),
        None => false,
    }
}

/// The rectangle with which a window occludes docks: none for the main
/// window, for windows that are not regular visible windows, for windows of
/// an ignored class, and for windows without a known proper rectangle.
pub fn occluder_rect(
    is_main_window: bool,
    is_regular_visible: bool,
    class_name: Option<&str>,
    rect: Option<Rect>,
) -> (res: Option<RectArea>)
    ensures
        res == (if is_main_window || !is_regular_visible {
            None
        } else if class_name matches Some(n) && is_ignored_class(n@) {
            None
        } else {
            match rect {
                Some(r) => spec_from_rect(r),
                None => None,
            }
        }),
{
    if is_main_window || !is_regular_visible {
        return None;
    }
    if let Some(name) = class_name {
        if is_ignored_window_class(name) {
            return None;
        }
    }
    match rect {
        Some(r) => RectArea::from_rect(r),
        None => None,
    }
}

/// More windows never uncover a dock: the cells that stay visible under
/// `occluders` followed by `more` are at most those that stay visible under
/// `occluders` alone, so a dock occluded by some windows stays occluded when
/// further windows open above it.
pub proof fn law_more_occluders_never_uncover(dock: RectArea, occluders: Seq<RectArea>, more: Seq<RectArea>)
    requires
        is_proper(dock),
    ensures
        visible_cells(dock, occluders + more) <= visible_cells(dock, occluders),
        occluded(dock, occluders) ==> occluded(dock, occluders + more),
{
    let all = occluders + more;
    let p = |x: int, y: int| in_rect(dock, x, y) && !in_any(all, x, y);
    let q = |x: int, y: int| in_rect(dock, x, y) && !in_any(occluders, x, y);
    let x0 = dock.left as int;
    let w = (dock.right - dock.left) as nat;
    let y0 = dock.top as int;
    let h = (dock.bottom - dock.top) as nat;
    assert forall|x: int, y: int| x0 <= x < x0 + w && y0 <= y < y0 + h implies #[trigger] implies_at(p, q, x, y) by {
        if in_any(occluders, x, y) {
            let i = choose|i: int| 0 <= i < occluders.len() && in_rect(#[trigger] occluders[i], x, y);
            assert(all[i] == occluders[i]);
        }
    }
    lemma_grid_le(p, q, x0, w, y0, h);
}

/// The order of the occluding windows does not matter: two lists that cover
/// the same cells leave the same cells of a dock visible.
pub proof fn law_order_of_occluders_is_irrelevant(dock: RectArea, a: Seq<RectArea>, b: Seq<RectArea>)
    requires
        is_proper(dock),
        a.to_multiset() == b.to_multiset(),
    ensures
        visible_cells(dock, a) == visible_cells(dock, b),
        occluded(dock, a) == occluded(dock, b),
{
    let p = |x: int, y: int| in_rect(dock, x, y) && !in_any(a, x, y);
    let q = |x: int, y: int| in_rect(dock, x, y) && !in_any(b, x, y);
    let x0 = dock.left as int;
    let w = (dock.right - dock.left) as nat;
    let y0 = dock.top as int;
    let h = (dock.bottom - dock.top) as nat;
    assert forall|x: int, y: int| x0 <= x < x0 + w && y0 <= y < y0 + h implies #[trigger] agree_at(p, q, x, y) by {
        broadcast use vstd::seq_lib::group_to_multiset_ensures;
        if in_any(a, x, y) {
            let i = choose|i: int| 0 <= i < a.len() && in_rect(#[trigger] a[i], x, y);
            assert(a.to_multiset().count(a[i]) > 0);
            assert(b.contains(a[i]));
        }
        if in_any(b, x, y) {
            let i = choose|i: int| 0 <= i < b.len() && in_rect(#[trigger] b[i], x, y);
            assert(b.to_multiset().count(b[i]) > 0);
            assert(a.contains(b[i]));
        }
    }
    lemma_grid_ext(p, q, x0, w, y0, h);
}


/// The window event of an object's creation.
pub const EVENT_OBJECT_CREATE: u32 = 0x8000;
/// The window event of an object's destruction.
pub const EVENT_OBJECT_DESTROY: u32 = 0x8001;
/// The window event of an object being shown.
pub const EVENT_OBJECT_SHOW: u32 = 0x8002;

/// Whether a window event makes the owner check the docks again: only
/// events about a whole window (object id 0), and for creation, destruction
/// and showing only with a valid window; only when there is an owner to
/// tell and a message to tell it with.
pub fn should_post_occlusion_check(
    event: u32,
    hwnd_valid: bool,
    id_object: i32,
    owner_valid: bool,
    message: u32,
) -> (res: bool)
    ensures
        res == (id_object == 0 && !((event == EVENT_OBJECT_CREATE || event == EVENT_OBJECT_DESTROY
            || event == EVENT_OBJECT_SHOW) && !hwnd_valid) && owner_valid && message != 0),
{
    if id_object != 0 {
        return false;
    }
    if (event == EVENT_OBJECT_CREATE || event == EVENT_OBJECT_DESTROY || event == EVENT_OBJECT_SHOW)
        && !hwnd_valid {
        return false;
    }
    owner_valid && message != 0
}


/// Only two extended style bits keep a window from occluding: the tool
/// window bit `0x80` and the click-through bit `0x20`. Every other bit
/// (such as the window edge `0x100` of ordinary frames) makes no
/// difference, and a style with neither bit never keeps a window out.
pub proof fn law_only_tool_and_click_through_windows_never_occlude(ex_style: u32)
    ensures
        has_non_occluding_style(ex_style) == has_non_occluding_style(ex_style & 0xa0),
        has_non_occluding_style(ex_style) <==> (ex_style & 0xa0 != 0),
        has_non_occluding_style(0x80),
        has_non_occluding_style(0x20),
        ex_style & 0xa0 == 0 ==> !has_non_occluding_style(ex_style),
{
    assert((ex_style & 0x80 != 0 || ex_style & 0x20 != 0) == ((ex_style & 0xa0) & 0x80 != 0
        || (ex_style & 0xa0) & 0x20 != 0)) by (bit_vector);
    assert((ex_style & 0x80 != 0 || ex_style & 0x20 != 0) <==> (ex_style & 0xa0 != 0)) by (bit_vector);
    assert(0x80u32 & 0x80 != 0) by (bit_vector);
    assert(0x20u32 & 0x20 != 0) by (bit_vector);
}

/// A shown, not minimized, not cloaked window whose known extended style
/// has neither the tool window nor the click-through bit is a regular
/// visible window, whatever its other style bits; a hidden, minimized or
/// cloaked window, or one whose style is unknown, never is.
pub proof fn law_regular_visible_windows(visible: bool, iconic: bool, cloaked: bool, ex_style: u32)
    ensures
        (visible && !iconic && !cloaked && ex_style & 0xa0 == 0) ==> !has_non_occluding_style(
            ex_style,
        ),
        (ex_style & 0xa0 != 0) ==> has_non_occluding_style(ex_style),
{
    law_only_tool_and_click_through_windows_never_occlude(ex_style);
}

} // verus!
