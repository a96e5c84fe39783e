//! The grid search: two biased evaluators and the solver that chooses between them.
//!
//! Every quantity of the search is a ratio of integers, so the model below is
//! exact: grid counts are rounded up, tile sizes to the nearest integer, and
//! crop adjustments up.
use vstd::prelude::*;
use crate::arith::{ceil_div, round_div, lemma_ceil_div_bounds, lemma_round_div_bounds,
    lemma_round_div_antitone, lemma_floor_bounds, lemma_floor_monotone, lemma_ceil_div_monotone};

verus! {

/// One candidate arrangement: `dims` is (columns, rows), `image_res` the size
/// each source image is resized to, and `image_adjust` the pixels cropped from
/// it along each axis.
#[derive(Clone, Copy, Debug)]
pub struct TileParams {
    pub dims: (u32, u32),
    pub image_res: (u32, u32),
    pub image_adjust: (u32, u32),
}

pub open spec fn positive(res: (u32, u32)) -> bool {
    res.0 > 0 && res.1 > 0
}

/// Columns of the width-biased fit: the tightest count that spans the
/// container width with native-width images, plus the looseness `c`.
pub open spec fn x_columns(iw: int, cw: int, c: int) -> int {
    ceil_div(cw, iw) + c
}

/// Rows of the width-biased fit: enough tiles of height `cw * ih / (t * iw)`
/// to cover `ch`.
pub open spec fn x_rows(iw: int, ih: int, cw: int, ch: int, c: int) -> int {
    ceil_div(ch * x_columns(iw, cw, c) * iw, cw * ih)
}

/// Rows of the height-biased fit.
pub open spec fn y_rows(ih: int, ch: int, c: int) -> int {
    ceil_div(ch, ih) + c
}

/// Columns of the height-biased fit: enough tiles of width `iw * ch / (ih * r)`
/// to cover `cw`.
pub open spec fn y_columns(iw: int, ih: int, cw: int, ch: int, c: int) -> int {
    ceil_div(cw * y_rows(ih, ch, c) * ih, ch * iw)
}

/// Whether the width-biased fit at `c` has a grid that `u32` can hold.
pub open spec fn x_bias_fits(image_res: (u32, u32), container_res: (u32, u32), c: u32) -> bool {
    &&& positive(image_res)
    &&& positive(container_res)
    &&& x_columns(image_res.0 as int, container_res.0 as int, c as int) <= u32::MAX
    &&& x_rows(image_res.0 as int, image_res.1 as int, container_res.0 as int,
        container_res.1 as int, c as int) <= u32::MAX
}

/// Whether the height-biased fit at `c` has a grid that `u32` can hold.
pub open spec fn y_bias_fits(image_res: (u32, u32), container_res: (u32, u32), c: u32) -> bool {
    &&& positive(image_res)
    &&& positive(container_res)
    &&& y_rows(image_res.1 as int, container_res.1 as int, c as int) <= u32::MAX
    &&& y_columns(image_res.0 as int, image_res.1 as int, container_res.0 as int,
        container_res.1 as int, c as int) <= u32::MAX
}

/// The width-biased fit: `t` columns of width `cw / t` span the container
/// exactly; the rows overshoot, and each tile loses the overshoot's share of
/// height, `(rows * new_h - ch) / rows` rounded up.
pub open spec fn x_bias(image_res: (u32, u32), container_res: (u32, u32), c: u32) -> TileParams {
    let (iw, ih) = (image_res.0 as int, image_res.1 as int);
    let (cw, ch) = (container_res.0 as int, container_res.1 as int);
    let t = x_columns(iw, cw, c as int);
    let rows = x_rows(iw, ih, cw, ch, c as int);
    TileParams {
        dims: (t as u32, rows as u32),
        image_res: (round_div(cw, t) as u32, round_div(cw * ih, t * iw) as u32),
        image_adjust: (0u32, ceil_div(rows * cw * ih - ch * t * iw, t * iw * rows) as u32),
    }
}

/// The height-biased fit, the mirror image of `x_bias`.
pub open spec fn y_bias(image_res: (u32, u32), container_res: (u32, u32), c: u32) -> TileParams {
    let (iw, ih) = (image_res.0 as int, image_res.1 as int);
    let (cw, ch) = (container_res.0 as int, container_res.1 as int);
    let r = y_rows(ih, ch, c as int);
    let cols = y_columns(iw, ih, cw, ch, c as int);
    TileParams {
        dims: (cols as u32, r as u32),
        image_res: (round_div(ch * iw, r * ih) as u32, round_div(ch, r) as u32),
        image_adjust: (ceil_div(cols * ch * iw - cw * r * ih, r * ih * cols) as u32, 0u32),
    }
}

/// The bounds behind the casts of one biased fit, stated with the roles of the
/// axes abstracted: `a` is the native size and `ca` the container size on the
/// exactly fitted axis, `b` and `cb` those on the other one.
proof fn lemma_fit_bounds(a: int, b: int, ca: int, cb: int, c: int)
    requires
        0 < a <= u32::MAX,
        0 < b <= u32::MAX,
        0 < ca <= u32::MAX,
        0 < cb <= u32::MAX,
        0 <= c,
    ensures
        ({
            let t = ceil_div(ca, a) + c;
            let n = ceil_div(cb * t * a, ca * b);
            &&& t >= c + 1
            &&& t * a >= ca
            &&& n >= 1
            &&& n * (ca * b) >= cb * t * a
            &&& n * (ca * b) - cb * t * a < ca * b
            &&& t * a * n >= ca
            &&& 0 <= round_div(ca, t) <= ca
            &&& round_div(ca, t) <= a
            &&& 0 <= round_div(ca * b, t * a) <= b
            &&& 0 <= ceil_div(n * ca * b - cb * t * a, t * a * n) <= b
        }),
{
    let t = ceil_div(ca, a) + c;
    lemma_ceil_div_bounds(ca, a);
    assert(t * a >= ca) by (nonlinear_arith)
        requires
            t >= ceil_div(ca, a),
            ceil_div(ca, a) * a >= ca,
            a > 0,
    ;
    assert(cb * t * a > 0) by (nonlinear_arith)
        requires
            cb > 0,
            t > 0,
            a > 0,
    ;
    assert(ca * b > 0) by (nonlinear_arith)
        requires
            ca > 0,
            b > 0,
    ;
    lemma_ceil_div_bounds(cb * t * a, ca * b);
    let n = ceil_div(cb * t * a, ca * b);
    assert(n * (ca * b) == n * ca * b) by (nonlinear_arith);
    // the tile width
    lemma_round_div_antitone(ca, 1, t);
    assert(round_div(ca, 1) == ca) by {
        assert((2 * ca + 1) / 2 == ca);
    }
    lemma_round_div_bounds(ca, t);
    assert(2 * ca + t <= 2 * a * t + t) by (nonlinear_arith)
        requires
            t * a >= ca,
    ;
    lemma_floor_monotone(2 * ca + t, 2 * a * t + t, 2 * t);
    assert((2 * a * t + t) / (2 * t) == a) by {
        assert(2 * a * t + t == a * (2 * t) + t) by (nonlinear_arith);
        vstd::arithmetic::div_mod::lemma_fundamental_div_mod_converse(2 * a * t + t, 2 * t, a, t);
    }
    // the tile height
    lemma_round_div_antitone(ca * b, ca, t * a);
    assert(round_div(ca * b, ca) == b) by {
        assert(2 * (ca * b) + ca == (2 * b + 1) * ca) by (nonlinear_arith);
        assert(2 * ca * b <= 2 * (ca * b) + ca) by (nonlinear_arith)
            requires
                ca > 0,
        ;
        lemma_floor_bounds(2 * (ca * b) + ca, 2 * ca);
        let q = round_div(ca * b, ca);
        assert(q * (2 * ca) <= (2 * b + 1) * ca);
        assert((2 * b + 1) * ca < (q + 1) * (2 * ca));
        assert(q == b) by (nonlinear_arith)
            requires
                q * (2 * ca) <= (2 * b + 1) * ca,
                (2 * b + 1) * ca < (q + 1) * (2 * ca),
                ca > 0,
        ;
    }
    lemma_round_div_bounds(ca * b, t * a);
    // the crop
    let e = n * ca * b - cb * t * a;
    let d = t * a * n;
    let ta = t * a;
    assert(ta * n >= ta) by (nonlinear_arith)
        requires
            ta >= 0,
            n >= 1,
    ;
    assert(d == ta * n);
    assert(e + d - 1 < (b + 1) * d) by (nonlinear_arith)
        requires
            e < ca * b,
            d >= ca,
            b > 0,
    ;
    lemma_ceil_div_bounds(e, d);
    if ceil_div(e, d) > b {
        assert(ceil_div(e, d) * d >= (b + 1) * d) by (nonlinear_arith)
            requires
                ceil_div(e, d) >= b + 1,
                d > 0,
        ;
        lemma_floor_bounds(e + d - 1, d);
    }
}

/// Along both axes of one biased fit, abstracted as in `lemma_fit_bounds`, the
/// rounded tiles fall short of the container by less than one and a half
/// pixels per tile.
proof fn lemma_fit_near_coverage(a: int, b: int, ca: int, cb: int, c: int)
    requires
        0 < a <= u32::MAX,
        0 < b <= u32::MAX,
        0 < ca <= u32::MAX,
        0 < cb <= u32::MAX,
        0 <= c,
    ensures
        ({
            let t = ceil_div(ca, a) + c;
            let n = ceil_div(cb * t * a, ca * b);
            let size_a = round_div(ca, t);
            let size_b = round_div(ca * b, t * a);
            let adj = ceil_div(n * ca * b - cb * t * a, t * a * n);
            &&& 2 * t * size_a + 3 * t > 2 * ca
            &&& 2 * n * (size_b - adj) + 3 * n > 2 * cb
        }),
{
    lemma_fit_bounds(a, b, ca, cb, c);
    let t = ceil_div(ca, a) + c;
    let n = ceil_div(cb * t * a, ca * b);
    let size_a = round_div(ca, t);
    let size_b = round_div(ca * b, t * a);
    let adj = ceil_div(n * ca * b - cb * t * a, t * a * n);
    lemma_round_div_bounds(ca, t);
    assert(2 * t * size_a + 3 * t > 2 * ca) by (nonlinear_arith)
        requires
            2 * ca - t < 2 * size_a * t,
            t > 0,
    ;
    let d = t * a;
    let p = ca * b;
    let e = n * ca * b - cb * t * a;
    assert(d > 0 && n > 0 && d * n > 0) by (nonlinear_arith)
        requires
            d >= ca,
            ca > 0,
            n >= 1,
    ;
    lemma_round_div_bounds(p, d);
    assert(n * ca * b == n * (ca * b)) by (nonlinear_arith);
    lemma_ceil_div_bounds(e, t * a * n);
    assert(t * a * n == d * n);
    assert(e == n * p - cb * d) by (nonlinear_arith)
        requires
            e == n * ca * b - cb * t * a,
            p == ca * b,
            d == t * a,
    ;
    let s = size_b;
    let q = adj;
    assert(2 * n * (s - q) + 3 * n > 2 * cb) by (nonlinear_arith)
        requires
            2 * p - d < 2 * s * d,
            q * (d * n) < e + d * n,
            e == n * p - cb * d,
            d > 0,
            n > 0,
    ;
}

/// Along one biased fit, abstracted as in `lemma_fit_bounds`, more looseness
/// never enlarges a tile and never removes a cell.
proof fn lemma_fit_monotone(a: int, b: int, ca: int, cb: int, c1: int, c2: int)
    requires
        0 < a <= u32::MAX,
        0 < b <= u32::MAX,
        0 < ca <= u32::MAX,
        0 < cb <= u32::MAX,
        0 <= c1 <= c2,
    ensures
        ({
            let t1 = ceil_div(ca, a) + c1;
            let t2 = ceil_div(ca, a) + c2;
            let n1 = ceil_div(cb * t1 * a, ca * b);
            let n2 = ceil_div(cb * t2 * a, ca * b);
            &&& t1 <= t2
            &&& n1 <= n2
            &&& t1 * n1 <= t2 * n2
            &&& round_div(ca, t2) <= round_div(ca, t1)
            &&& round_div(ca * b, t2 * a) <= round_div(ca * b, t1 * a)
        }),
{
    lemma_fit_bounds(a, b, ca, cb, c1);
    lemma_fit_bounds(a, b, ca, cb, c2);
    let t1 = ceil_div(ca, a) + c1;
    let t2 = ceil_div(ca, a) + c2;
    assert(cb * t1 * a <= cb * t2 * a) by (nonlinear_arith)
        requires
            0 < t1 <= t2,
            cb > 0,
            a > 0,
    ;
    assert(0 <= cb * t1 * a) by (nonlinear_arith)
        requires
            0 < t1,
            cb > 0,
            a > 0,
    ;
    assert(ca * b > 0) by (nonlinear_arith)
        requires
            ca > 0,
            b > 0,
    ;
    lemma_ceil_div_monotone(cb * t1 * a, cb * t2 * a, ca * b);
    let n1 = ceil_div(cb * t1 * a, ca * b);
    let n2 = ceil_div(cb * t2 * a, ca * b);
    assert(t1 * n1 <= t2 * n2) by (nonlinear_arith)
        requires
            0 <= t1 <= t2,
            0 <= n1 <= n2,
    ;
    lemma_round_div_antitone(ca, t1, t2);
    assert(0 < t1 * a <= t2 * a) by (nonlinear_arith)
        requires
            0 < t1 <= t2,
            a > 0,
    ;
    assert(ca * b >= 0);
    lemma_round_div_antitone(ca * b, t1 * a, t2 * a);
}

/// Evaluates one biased fit with the axes abstracted as in `lemma_fit_bounds`:
/// the count and tile size along the fitted axis, the count and tile size
/// along the other one, and the crop on the other one.
fn fit_axis(a: u32, b: u32, ca: u32, cb: u32, c: u32) -> (r: (u32, u32, u32, u32, u32))
    requires
        a > 0,
        b > 0,
        ca > 0,
        cb > 0,
        ceil_div(ca as int, a as int) + c <= u32::MAX,
        ceil_div(cb * (ceil_div(ca as int, a as int) + c) * a, ca * b) <= u32::MAX,
    ensures
        ({
            let t = ceil_div(ca as int, a as int) + c;
            let n = ceil_div(cb * t * a, ca * b);
            &&& r.0 == t
            &&& r.1 == n
            &&& r.2 == round_div(ca as int, t)
            &&& r.3 == round_div(ca * b, t * a)
            &&& r.4 == ceil_div(n * ca * b - cb * t * a, t * a * n)
        }),
{
    proof {
        lemma_fit_bounds(a as int, b as int, ca as int, cb as int, c as int);
    }
    let (a, b, ca, cb, c) = (a as u128, b as u128, ca as u128, cb as u128, c as u128);
    let t: u128 = (ca + a - 1) / a + c;
    let ghost tg: int = ceil_div(ca as int, a as int) + c;
    assert(t == tg);
    assert(ca * b <= 0xffff_ffff_ffff_ffffu128) by (nonlinear_arith)
        requires
            ca <= 0xffff_ffffu128,
            b <= 0xffff_ffffu128,
    ;
    assert(t * a <= 0xffff_ffff_ffff_ffffu128) by (nonlinear_arith)
        requires
            t <= 0xffff_ffffu128,
            a <= 0xffff_ffffu128,
    ;
    let prod: u128 = ca * b;
    let ta: u128 = t * a;
    assert(cb * ta <= 0xffff_ffff_ffff_ffff_ffff_ffffu128) by (nonlinear_arith)
        requires
            cb <= 0xffff_ffffu128,
            ta <= 0xffff_ffff_ffff_ffffu128,
    ;
    assert(cb * t * a == cb * ta) by (nonlinear_arith)
        requires
            ta == t * a,
    ;
    let n: u128 = (cb * ta + prod - 1) / prod;
    let size_a: u128 = (2 * ca + t) / (2 * t);
    let size_b: u128 = (2 * prod + ta) / (2 * ta);
    assert(ta * n <= 0xffff_ffff_ffff_ffff_ffff_ffffu128) by (nonlinear_arith)
        requires
            n <= 0xffff_ffffu128,
            ta <= 0xffff_ffff_ffff_ffffu128,
    ;
    assert(n * prod <= 0xffff_ffff_ffff_ffff_ffff_ffffu128) by (nonlinear_arith)
        requires
            n <= 0xffff_ffffu128,
            prod <= 0xffff_ffff_ffff_ffffu128,
    ;
    assert(n * ca * b == n * prod) by (nonlinear_arith)
        requires
            prod == ca * b,
    ;
    assert(t * a * n == ta * n) by (nonlinear_arith)
        requires
            ta == t * a,
    ;
    let d: u128 = ta * n;
    assert(n * (ca * b) == n * prod);
    let e: u128 = n * prod - cb * ta;
    let adjust: u128 = (e + d - 1) / d;
    (t as u32, n as u32, size_a as u32, size_b as u32, adjust as u32)
}

/// Evaluates the width-biased fit (see `x_bias`) at looseness `c`.
pub fn calculate_tile_x_bias(image_res: (u32, u32), container_res: (u32, u32), c: u32) -> (r:
    TileParams)
    requires
        x_bias_fits(image_res, container_res, c),
    ensures
        r == x_bias(image_res, container_res, c),
{
    let (t, rows, w, h, dy) = fit_axis(image_res.0, image_res.1, container_res.0, container_res.1, c);
    TileParams { dims: (t, rows), image_res: (w, h), image_adjust: (0, dy) }
}

/// Evaluates the height-biased fit (see `y_bias`) at looseness `c`.
pub fn calculate_tile_y_bias(image_res: (u32, u32), container_res: (u32, u32), c: u32) -> (r:
    TileParams)
    requires
        y_bias_fits(image_res, container_res, c),
    ensures
        r == y_bias(image_res, container_res, c),
{
    let (r, cols, h, w, dx) = fit_axis(image_res.1, image_res.0, container_res.1, container_res.0, c);
    TileParams { dims: (cols, r), image_res: (w, h), image_adjust: (dx, 0) }
}

/// Width of a tile after its crop (negative where the crop exceeds the tile).
pub open spec fn cropped_width(p: TileParams) -> int {
    p.image_res.0 - p.image_adjust.0
}

/// Height of a tile after its crop (negative where the crop exceeds the tile).
pub open spec fn cropped_height(p: TileParams) -> int {
    p.image_res.1 - p.image_adjust.1
}

/// Number of grid cells.
pub open spec fn cell_count(p: TileParams) -> int {
    p.dims.0 * p.dims.1
}

/// Each side of the cropped tile is at least the matching side of `floor`.
/// A crop larger than its tile leaves a negative side, which no floor admits.
pub open spec fn meets_floor(p: TileParams, floor: (u32, u32)) -> bool {
    cropped_width(p) >= floor.0 && cropped_height(p) >= floor.1
}

/// The candidate kept at one looseness: the height-biased fit where the
/// width-biased one crops more height than it crops width, else the
/// width-biased fit.
pub open spec fn pick(image_res: (u32, u32), container_res: (u32, u32), c: u32) -> TileParams {
    let x = x_bias(image_res, container_res, c);
    let y = y_bias(image_res, container_res, c);
    if x.image_adjust.1 > y.image_adjust.0 {
        y
    } else {
        x
    }
}

/// The search from looseness `c` on: the first kept candidate with more than
/// `min_count` cells whose cropped size meets `floor`; `None` once a kept
/// candidate falls below `floor`, or once a grid no longer fits in `u32`.
pub open spec fn search_from(
    image_res: (u32, u32),
    container_res: (u32, u32),
    min_count: u32,
    floor: (u32, u32),
    c: nat,
) -> Option<TileParams>
    decreases min_count + 1 - c,
{
    if c > min_count || !x_bias_fits(image_res, container_res, c as u32) || !y_bias_fits(
        image_res,
        container_res,
        c as u32,
    ) {
        None
    } else {
        let p = pick(image_res, container_res, c as u32);
        if cell_count(p) > min_count && meets_floor(p, floor) {
            Some(p)
        } else if !meets_floor(p, floor) {
            None
        } else {
            search_from(image_res, container_res, min_count, floor, c + 1)
        }
    }
}

/// The whole search, from looseness zero.
pub open spec fn optimal_tile(
    image_res: (u32, u32),
    container_res: (u32, u32),
    min_count: u32,
    floor: (u32, u32),
) -> Option<TileParams> {
    search_from(image_res, container_res, min_count, floor, 0)
}

/// Each biased fit at looseness `c` has at least `c + 1` cells.
pub proof fn lemma_pick_cells(image_res: (u32, u32), container_res: (u32, u32), c: u32)
    requires
        x_bias_fits(image_res, container_res, c),
        y_bias_fits(image_res, container_res, c),
    ensures
        cell_count(x_bias(image_res, container_res, c)) >= c + 1,
        cell_count(y_bias(image_res, container_res, c)) >= c + 1,
        cell_count(pick(image_res, container_res, c)) >= c + 1,
{
    let (iw, ih) = (image_res.0 as int, image_res.1 as int);
    let (cw, ch) = (container_res.0 as int, container_res.1 as int);
    lemma_fit_bounds(iw, ih, cw, ch, c as int);
    lemma_fit_bounds(ih, iw, ch, cw, c as int);
    let x = x_bias(image_res, container_res, c);
    let y = y_bias(image_res, container_res, c);
    assert(x.dims.0 * x.dims.1 >= c + 1) by (nonlinear_arith)
        requires
            x.dims.0 >= c + 1,
            x.dims.1 >= 1,
    ;
    assert(y.dims.0 * y.dims.1 >= c + 1) by (nonlinear_arith)
        requires
            y.dims.1 >= c + 1,
            y.dims.0 >= 1,
    ;
}

/// Whether both counts of a biased fit, abstracted as in `lemma_fit_bounds`,
/// fit in `u32`.
fn fit_axis_fits(a: u32, b: u32, ca: u32, cb: u32, c: u32) -> (r: bool)
    requires
        a > 0,
        b > 0,
        ca > 0,
        cb > 0,
    ensures
        r == (ceil_div(ca as int, a as int) + c <= u32::MAX && ceil_div(
            cb * (ceil_div(ca as int, a as int) + c) * a,
            ca * b,
        ) <= u32::MAX),
{
    let (a, b, ca, cb, c) = (a as u128, b as u128, ca as u128, cb as u128, c as u128);
    let t: u128 = (ca + a - 1) / a + c;
    if t > 0xffff_ffffu128 {
        return false;
    }
    assert(ca * b <= 0xffff_ffff_ffff_ffffu128 && ca * b > 0) by (nonlinear_arith)
        requires
            0 < ca <= 0xffff_ffffu128,
            0 < b <= 0xffff_ffffu128,
    ;
    assert(t * a <= 0xffff_ffff_ffff_ffffu128) by (nonlinear_arith)
        requires
            t <= 0xffff_ffffu128,
            a <= 0xffff_ffffu128,
    ;
    let prod: u128 = ca * b;
    let ta: u128 = t * a;
    assert(cb * ta <= 0xffff_ffff_ffff_ffff_ffff_ffffu128) by (nonlinear_arith)
        requires
            cb <= 0xffff_ffffu128,
            ta <= 0xffff_ffff_ffff_ffffu128,
    ;
    assert(cb * t * a == cb * ta) by (nonlinear_arith)
        requires
            ta == t * a,
    ;
    let n: u128 = (cb * ta + prod - 1) / prod;
    n <= 0xffff_ffffu128
}

/// Whether each side of the cropped tile meets the matching side of `floor`.
pub fn tile_meets_floor(p: &TileParams, floor: (u32, u32)) -> (r: bool)
    ensures
        r == meets_floor(*p, floor),
{
    let w: i64 = p.image_res.0 as i64 - p.image_adjust.0 as i64;
    let h: i64 = p.image_res.1 as i64 - p.image_adjust.1 as i64;
    w >= floor.0 as i64 && h >= floor.1 as i64
}

/// Searches looseness values upward for the tightest acceptable layout.
///
/// At each looseness both biased fits are evaluated and the one with the
/// smaller cross-axis crop is kept; it is accepted when it has more than
/// `minimum_image_count` cells and its cropped size meets
/// `minimum_image_dims`, and the search gives up with `None` once the
/// cropped size falls below that floor, or once a grid would need more
/// columns or rows than `u32` holds.
pub fn find_optimal_tile(
    image_res: (u32, u32),
    container_res: (u32, u32),
    minimum_image_count: u32,
    minimum_image_dims: (u32, u32),
) -> (r: Option<TileParams>)
    requires
        positive(image_res),
        positive(container_res),
    ensures
        r == optimal_tile(image_res, container_res, minimum_image_count, minimum_image_dims),
{
    let mut c: u32 = 0;
    loop
        invariant
            positive(image_res),
            positive(container_res),
            c <= minimum_image_count,
            optimal_tile(image_res, container_res, minimum_image_count, minimum_image_dims)
                == search_from(
                image_res,
                container_res,
                minimum_image_count,
                minimum_image_dims,
                c as nat,
            ),
        decreases minimum_image_count - c,
    {
        let fits_x = fit_axis_fits(image_res.0, image_res.1, container_res.0, container_res.1, c);
        let fits_y = fit_axis_fits(image_res.1, image_res.0, container_res.1, container_res.0, c);
        if !fits_x || !fits_y {
            return None;
        }
        let x = calculate_tile_x_bias(image_res, container_res, c);
        let y = calculate_tile_y_bias(image_res, container_res, c);
        let best = if x.image_adjust.1 > y.image_adjust.0 {
            y
        } else {
            x
        };
        proof {
            lemma_pick_cells(image_res, container_res, c);
        }
        assert(best.dims.0 * best.dims.1 <= 0xffff_ffff_ffff_ffffu64) by (nonlinear_arith)
            requires
                best.dims.0 <= 0xffff_ffffu32,
                best.dims.1 <= 0xffff_ffffu32,
        ;
        let cells: u64 = best.dims.0 as u64 * best.dims.1 as u64;
        let floor_met = tile_meets_floor(&best, minimum_image_dims);
        if cells > minimum_image_count as u64 && floor_met {
            return Some(best);
        }
        if !floor_met {
            return None;
        }
        c = c + 1;
    }
}

/// Width-biased fits: raising the looseness from `c1` to `c2` adds exactly
/// `c2 - c1` columns, never removes a row or a cell, and never enlarges the
/// tile; wherever the looser grid fits in `u32`, so does the tighter one.
pub proof fn lemma_x_looseness_monotone(
    image_res: (u32, u32),
    container_res: (u32, u32),
    c1: u32,
    c2: u32,
)
    requires
        c1 <= c2,
        x_bias_fits(image_res, container_res, c2),
    ensures
        x_bias_fits(image_res, container_res, c1),
        ({
            let a = x_bias(image_res, container_res, c1);
            let b = x_bias(image_res, container_res, c2);
            &&& b.dims.0 == a.dims.0 + (c2 - c1)
            &&& b.dims.1 >= a.dims.1
            &&& cell_count(b) >= cell_count(a)
            &&& b.image_res.0 <= a.image_res.0
            &&& b.image_res.1 <= a.image_res.1
        }),
{
    let (iw, ih) = (image_res.0 as int, image_res.1 as int);
    let (cw, ch) = (container_res.0 as int, container_res.1 as int);
    lemma_fit_bounds(iw, ih, cw, ch, c1 as int);
    lemma_fit_bounds(iw, ih, cw, ch, c2 as int);
    lemma_fit_monotone(iw, ih, cw, ch, c1 as int, c2 as int);
}

/// Height-biased fits: raising the looseness from `c1` to `c2` adds exactly
/// `c2 - c1` rows, never removes a column or a cell, and never enlarges the
/// tile; wherever the looser grid fits in `u32`, so does the tighter one.
pub proof fn lemma_y_looseness_monotone(
    image_res: (u32, u32),
    container_res: (u32, u32),
    c1: u32,
    c2: u32,
)
    requires
        c1 <= c2,
        y_bias_fits(image_res, container_res, c2),
    ensures
        y_bias_fits(image_res, container_res, c1),
        ({
            let a = y_bias(image_res, container_res, c1);
            let b = y_bias(image_res, container_res, c2);
            &&& b.dims.1 == a.dims.1 + (c2 - c1)
            &&& b.dims.0 >= a.dims.0
            &&& cell_count(b) >= cell_count(a)
            &&& b.image_res.0 <= a.image_res.0
            &&& b.image_res.1 <= a.image_res.1
        }),
{
    let (iw, ih) = (image_res.0 as int, image_res.1 as int);
    let (cw, ch) = (container_res.0 as int, container_res.1 as int);
    lemma_fit_bounds(ih, iw, ch, cw, c1 as int);
    lemma_fit_bounds(ih, iw, ch, cw, c2 as int);
    lemma_fit_monotone(ih, iw, ch, cw, c1 as int, c2 as int);
    let a = y_bias(image_res, container_res, c1);
    let b = y_bias(image_res, container_res, c2);
    assert(cell_count(a) == a.dims.1 * a.dims.0) by (nonlinear_arith);
    assert(cell_count(b) == b.dims.1 * b.dims.0) by (nonlinear_arith);
}

/// A kept candidate whose crop fits inside its tile along both axes.
pub open spec fn crop_fits(image_res: (u32, u32), container_res: (u32, u32), c: u32) -> bool {
    let p = pick(image_res, container_res, c);
    p.image_adjust.0 <= p.image_res.0 && p.image_adjust.1 <= p.image_res.1
}

/// With the floor (0, 0) the search from `c` finds a layout wherever both
/// grids at looseness `min_count` fit in `u32` and every kept crop from `c`
/// on fits inside its tile.
proof fn lemma_no_floor_search(
    image_res: (u32, u32),
    container_res: (u32, u32),
    min_count: u32,
    c: nat,
)
    requires
        c <= min_count,
        x_bias_fits(image_res, container_res, min_count),
        y_bias_fits(image_res, container_res, min_count),
        forall|k: u32| c <= k <= min_count ==> #[trigger] crop_fits(image_res, container_res, k),
    ensures
        search_from(image_res, container_res, min_count, (0, 0), c) is Some,
    decreases min_count + 1 - c,
{
    lemma_x_looseness_monotone(image_res, container_res, c as u32, min_count);
    lemma_y_looseness_monotone(image_res, container_res, c as u32, min_count);
    lemma_pick_cells(image_res, container_res, c as u32);
    let p = pick(image_res, container_res, c as u32);
    assert(crop_fits(image_res, container_res, c as u32));
    assert(meets_floor(p, (0, 0)));
    if cell_count(p) <= min_count {
        lemma_no_floor_search(image_res, container_res, min_count, c + 1);
    }
}

/// Without a floor the search finds a layout wherever both grids at
/// looseness `min_count` fit in `u32` and no kept crop up to there exceeds its
/// tile: the kept candidate at looseness `c` has at least `c + 1` cells.
pub proof fn lemma_no_floor_finds_layout(
    image_res: (u32, u32),
    container_res: (u32, u32),
    min_count: u32,
)
    requires
        x_bias_fits(image_res, container_res, min_count),
        y_bias_fits(image_res, container_res, min_count),
        forall|k: u32| k <= min_count ==> #[trigger] crop_fits(image_res, container_res, k),
    ensures
        optimal_tile(image_res, container_res, min_count, (0, 0)) is Some,
{
    lemma_no_floor_search(image_res, container_res, min_count, 0);
}

/// A layout that the search accepts covers the container up to less than one
/// and a half pixels per tile along each axis: the tile sizes are rounded to
/// the nearest pixel and the crops rounded up, so a small shortfall remains.
pub proof fn lemma_accepted_layout_near_coverage(
    image_res: (u32, u32),
    container_res: (u32, u32),
    min_count: u32,
    floor: (u32, u32),
)
    requires
        positive(image_res),
        positive(container_res),
        optimal_tile(image_res, container_res, min_count, floor) is Some,
    ensures
        ({
            let p = optimal_tile(image_res, container_res, min_count, floor)->Some_0;
            &&& 2 * p.dims.0 * cropped_width(p) + 3 * p.dims.0 > 2 * container_res.0
            &&& 2 * p.dims.1 * cropped_height(p) + 3 * p.dims.1 > 2 * container_res.1
        }),
{
    let c = lemma_search_picks(image_res, container_res, min_count, floor, 0);
    let (iw, ih) = (image_res.0 as int, image_res.1 as int);
    let (cw, ch) = (container_res.0 as int, container_res.1 as int);
    lemma_fit_bounds(iw, ih, cw, ch, c as int);
    lemma_fit_bounds(ih, iw, ch, cw, c as int);
    lemma_fit_near_coverage(iw, ih, cw, ch, c as int);
    lemma_fit_near_coverage(ih, iw, ch, cw, c as int);
    let x = x_bias(image_res, container_res, c);
    let y = y_bias(image_res, container_res, c);
    assert(2 * x.dims.0 * cropped_width(x) == 2 * x.dims.0 * x.image_res.0);
    assert(2 * y.dims.1 * cropped_height(y) == 2 * y.dims.1 * y.image_res.1);
}

/// What the search from looseness `c` accepts is the kept candidate of some
/// looseness `k >= c` at which both fits hold, and it meets the constraints.
proof fn lemma_search_picks(
    image_res: (u32, u32),
    container_res: (u32, u32),
    min_count: u32,
    floor: (u32, u32),
    c: nat,
) -> (k: u32)
    requires
        search_from(image_res, container_res, min_count, floor, c) is Some,
    ensures
        k >= c,
        x_bias_fits(image_res, container_res, k),
        y_bias_fits(image_res, container_res, k),
        search_from(image_res, container_res, min_count, floor, c)->Some_0 == pick(
            image_res,
            container_res,
            k,
        ),
        cell_count(pick(image_res, container_res, k)) > min_count,
        meets_floor(pick(image_res, container_res, k), floor),
    decreases min_count + 1 - c,
{
    let p = pick(image_res, container_res, c as u32);
    if cell_count(p) > min_count && meets_floor(p, floor) {
        c as u32
    } else {
        lemma_search_picks(image_res, container_res, min_count, floor, c + 1)
    }
}

/// An accepted layout has more cells than `min_count`, a crop that fits
/// inside its tile, a cropped tile size that meets `floor` on each side, and
/// a crop along one axis at most.
pub proof fn lemma_accepted_layout_constraints(
    image_res: (u32, u32),
    container_res: (u32, u32),
    min_count: u32,
    floor: (u32, u32),
)
    requires
        optimal_tile(image_res, container_res, min_count, floor) is Some,
    ensures
        ({
            let p = optimal_tile(image_res, container_res, min_count, floor)->Some_0;
            &&& cell_count(p) > min_count
            &&& p.image_adjust.0 <= p.image_res.0
            &&& p.image_adjust.1 <= p.image_res.1
            &&& meets_floor(p, floor)
            &&& p.image_adjust.0 == 0 || p.image_adjust.1 == 0
        }),
{
    lemma_search_picks(image_res, container_res, min_count, floor, 0);
}

/// A floor wider than the native image is never met: no kept candidate has
/// a tile wider than the native image, so the search finds no layout.
pub proof fn lemma_floor_above_native_width(
    image_res: (u32, u32),
    container_res: (u32, u32),
    min_count: u32,
    floor: (u32, u32),
)
    requires
        positive(image_res),
        positive(container_res),
        floor.0 > image_res.0,
    ensures
        optimal_tile(image_res, container_res, min_count, floor) is None,
{
    if x_bias_fits(image_res, container_res, 0) && y_bias_fits(image_res, container_res, 0) {
        let (iw, ih) = (image_res.0 as int, image_res.1 as int);
        let (cw, ch) = (container_res.0 as int, container_res.1 as int);
        lemma_fit_bounds(iw, ih, cw, ch, 0);
        lemma_fit_bounds(ih, iw, ch, cw, 0);
        assert(!meets_floor(pick(image_res, container_res, 0), floor));
    }
}

/// The search depends on its inputs alone: two searches on the same inputs
/// give the same layout.
pub proof fn lemma_search_deterministic(
    image_res: (u32, u32),
    container_res: (u32, u32),
    min_count: u32,
    floor: (u32, u32),
    first: Option<TileParams>,
    second: Option<TileParams>,
)
    requires
        first == optimal_tile(image_res, container_res, min_count, floor),
        second == optimal_tile(image_res, container_res, min_count, floor),
    ensures
        first == second,
{
}

} // verus!
