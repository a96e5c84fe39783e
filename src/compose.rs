//! The compositor: resizes and crops each source image to the layout's tile,
//! and paints the tiles into one canvas in row-major order, cycling through
//! the sources where there are fewer of them than cells.
use vstd::prelude::*;
use image::DynamicImage;
use crate::layout::{TileParams, cropped_width, cropped_height, cell_count, positive, optimal_tile,
    find_optimal_tile};
use crate::image_ops::{image_dims, has_float_samples, blank_of, resized_of, cropped_of, pasted_of,
    crop_dims, dimensions, is_float_image, blank_canvas, resize_lanczos, crop, paste};

verus! {

/// Why a composite could not be built.
#[derive(Clone, Copy, Debug, PartialEq, Eq, Structural)]
pub enum TileError {
    /// A size that must be positive is zero, or there are more images than
    /// `u32` can count.
    InvalidInput,
    /// The layout has no cell, crops more than a tile holds, or gives a
    /// canvas too large to allocate.
    InvalidLayout,
    /// The tile at this index of the list is larger than a cell.
    TileTooLarge { index: usize },
    /// The image at this index of the list holds no pixel, is too large to
    /// resize, or stores float samples, which are not painted.
    UnusableImage { index: usize },
    /// The canvas would be too large to allocate.
    CanvasTooLarge,
}

/// Width of the canvas: every column holds one cropped tile.
pub open spec fn canvas_width(p: TileParams) -> int {
    p.dims.0 * cropped_width(p)
}

/// Height of the canvas: every row holds one cropped tile.
pub open spec fn canvas_height(p: TileParams) -> int {
    p.dims.1 * cropped_height(p)
}

/// A layout that can be painted: at least one cell, a tile of at least one
/// pixel whose RGBA buffer fits in `usize`, crops within the tile, a canvas whose sides fit in `u32` and whose RGBA buffer and cell count
/// fit in `usize`.
pub open spec fn paintable(p: TileParams) -> bool {
    &&& p.dims.0 > 0
    &&& p.dims.1 > 0
    &&& p.image_adjust.0 <= p.image_res.0
    &&& p.image_adjust.1 <= p.image_res.1
    &&& p.image_res.0 > 0
    &&& p.image_res.1 > 0
    &&& 4 * p.image_res.0 <= usize::MAX
    &&& 4 * p.image_res.0 * p.image_res.1 <= usize::MAX
    &&& canvas_width(p) <= u32::MAX
    &&& canvas_height(p) <= u32::MAX
    &&& 4 * canvas_width(p) <= usize::MAX
    &&& 4 * canvas_width(p) * canvas_height(p) <= usize::MAX
    &&& cell_count(p) <= usize::MAX
}

/// Whether an RGBA buffer of `w` by `h` pixels has a length that fits `usize`,
/// counted as `4 * w` first and then `4 * w * h`.
pub fn rgba_buffer_fits(w: u32, h: u32) -> (r: bool)
    ensures
        r == (4 * w <= usize::MAX && 4 * w * h <= usize::MAX),
{
    assert(4 * w * h <= 4 * 0xffff_ffff_ffff_ffffu128 + 4) by (nonlinear_arith)
        requires
            w <= 0xffff_ffffu32,
            h <= 0xffff_ffffu32,
    ;
    4 * (w as u128) <= usize::MAX as u128 && 4 * (w as u128) * (h as u128) <= usize::MAX as u128
}

/// Whether `p` can be painted (see `paintable`).
pub fn is_paintable(p: &TileParams) -> (r: bool)
    ensures
        r == paintable(*p),
{
    if p.dims.0 == 0 || p.dims.1 == 0 || p.image_adjust.0 > p.image_res.0 || p.image_adjust.1
        > p.image_res.1 || p.image_res.0 == 0 || p.image_res.1 == 0 {
        return false;
    }
    if !rgba_buffer_fits(p.image_res.0, p.image_res.1) {
        return false;
    }
    let cw: u64 = (p.image_res.0 - p.image_adjust.0) as u64;
    let ch: u64 = (p.image_res.1 - p.image_adjust.1) as u64;
    assert(p.dims.0 * cw <= 0xffff_ffff_ffff_ffffu64 && p.dims.1 * ch <= 0xffff_ffff_ffff_ffffu64)
        by (nonlinear_arith)
        requires
            p.dims.0 <= 0xffff_ffffu32,
            p.dims.1 <= 0xffff_ffffu32,
            cw <= 0xffff_ffffu64,
            ch <= 0xffff_ffffu64,
    ;
    let w: u64 = p.dims.0 as u64 * cw;
    let h: u64 = p.dims.1 as u64 * ch;
    if w > 0xffff_ffffu64 || h > 0xffff_ffffu64 {
        return false;
    }
    assert(4 * w * h <= 4 * 0xffff_ffff_ffff_ffffu128 + 4) by (nonlinear_arith)
        requires
            w <= 0xffff_ffffu64,
            h <= 0xffff_ffffu64,
    ;
    assert(p.dims.0 * p.dims.1 <= 0xffff_ffff_ffff_ffffu64) by (nonlinear_arith)
        requires
            p.dims.0 <= 0xffff_ffffu32,
            p.dims.1 <= 0xffff_ffffu32,
    ;
    let area: u128 = 4 * (w as u128) * (h as u128);
    let cells: u128 = p.dims.0 as u128 * p.dims.1 as u128;
    area <= usize::MAX as u128 && cells <= usize::MAX as u128 && 4 * (w as u128)
        <= usize::MAX as u128
}

/// The canvas size, `dims * (image_res - image_adjust)` along each axis.
pub fn canvas_size(p: &TileParams) -> (r: (u32, u32))
    requires
        paintable(*p),
    ensures
        r.0 == canvas_width(*p),
        r.1 == canvas_height(*p),
{
    (p.dims.0 * (p.image_res.0 - p.image_adjust.0), p.dims.1 * (p.image_res.1 - p.image_adjust.1))
}

/// Where one cell of the grid is painted from: the index of its source image
/// and the canvas position of its top-left corner.
#[derive(Clone, Copy, Debug, PartialEq, Eq, Structural)]
pub struct Placement {
    pub source: usize,
    pub x: u32,
    pub y: u32,
}

/// The placement of cell `k` (counted row by row) among `n` sources: source
/// `k mod n`, column `k mod columns`, row `k / columns`.
pub open spec fn placement_of(p: TileParams, n: int, k: int) -> Placement {
    Placement {
        source: (k % n) as usize,
        x: ((k % p.dims.0 as int) * cropped_width(p)) as u32,
        y: ((k / p.dims.0 as int) * cropped_height(p)) as u32,
    }
}

/// `s` holds one placement per cell, in row-major order.
pub open spec fn is_plan(p: TileParams, n: int, s: Seq<Placement>) -> bool {
    &&& s.len() == cell_count(p)
    &&& forall|k: int| 0 <= k < s.len() ==> #[trigger] s[k] == placement_of(p, n, k)
}

/// Cell `i * columns + j` sits in row `i` and column `j`, inside the canvas.
proof fn lemma_cell_position(p: TileParams, i: int, j: int)
    requires
        paintable(p),
        0 <= i < p.dims.1,
        0 <= j < p.dims.0,
    ensures
        ({
            let k = i * p.dims.0 + j;
            &&& 0 <= k < cell_count(p)
            &&& k % (p.dims.0 as int) == j
            &&& k / (p.dims.0 as int) == i
            &&& 0 <= j * cropped_width(p)
            &&& j * cropped_width(p) + cropped_width(p) <= canvas_width(p)
            &&& 0 <= i * cropped_height(p)
            &&& i * cropped_height(p) + cropped_height(p) <= canvas_height(p)
        }),
{
    let cols = p.dims.0 as int;
    let k = i * cols + j;
    assert(0 <= k < cell_count(p)) by (nonlinear_arith)
        requires
            0 <= i < p.dims.1,
            0 <= j < cols,
            k == i * cols + j,
            cell_count(p) == cols * p.dims.1,
    ;
    vstd::arithmetic::div_mod::lemma_fundamental_div_mod_converse(k, cols, i, j);
    let w = cropped_width(p);
    let h = cropped_height(p);
    assert(0 <= j * w && j * w + w <= cols * w) by (nonlinear_arith)
        requires
            0 <= j < cols,
            w >= 0,
    ;
    assert(0 <= i * h && i * h + h <= p.dims.1 * h) by (nonlinear_arith)
        requires
            0 <= i < p.dims.1,
            h >= 0,
    ;
}

/// Plans the painting of every cell, row by row, with source `k mod n` for
/// cell `k` and the cell's corner at (column × tile width, row × tile height)
/// in cropped tile sizes.
pub fn tile_placements(p: &TileParams, image_count: usize) -> (r: Vec<Placement>)
    requires
        paintable(*p),
        image_count > 0,
    ensures
        is_plan(*p, image_count as int, r@),
{
    let tw: u32 = p.image_res.0 - p.image_adjust.0;
    let th: u32 = p.image_res.1 - p.image_adjust.1;
    let cols: u32 = p.dims.0;
    let mut plan: Vec<Placement> = Vec::new();
    let mut count: usize = 0;
    let mut i: u32 = 0;
    while i < p.dims.1
        invariant
            paintable(*p),
            image_count > 0,
            tw == cropped_width(*p),
            th == cropped_height(*p),
            cols == p.dims.0,
            i <= p.dims.1,
            count == i * cols,
            plan@.len() == count,
            forall|k: int| 0 <= k < plan@.len() ==> #[trigger] plan@[k] == placement_of(
                *p,
                image_count as int,
                k,
            ),
        decreases p.dims.1 - i,
    {
        let mut j: u32 = 0;
        while j < cols
            invariant
                paintable(*p),
                image_count > 0,
                tw == cropped_width(*p),
                th == cropped_height(*p),
                cols == p.dims.0,
                i < p.dims.1,
                j <= cols,
                count == i * cols + j,
                plan@.len() == count,
                forall|k: int| 0 <= k < plan@.len() ==> #[trigger] plan@[k] == placement_of(
                    *p,
                    image_count as int,
                    k,
                ),
            decreases cols - j,
        {
            proof {
                lemma_cell_position(*p, i as int, j as int);
            }
            let x: u32 = j * tw;
            let y: u32 = i * th;
            plan.push(Placement { source: count % image_count, x, y });
            count = count + 1;
            j = j + 1;
        }
        assert(count == (i + 1) * cols) by (nonlinear_arith)
            requires
                count == i * cols + cols,
        ;
        i = i + 1;
    }
    assert(count == cell_count(*p)) by (nonlinear_arith)
        requires
            count == i * cols,
            i == p.dims.1,
            cols == p.dims.0,
    ;
    plan
}

/// Wraparound: in a plan for `n` sources, the cell in row `i` and column `j`
/// is painted from source `(i * columns + j) mod n` at (`j` × tile width,
/// `i` × tile height), and that tile lies inside the canvas; so every cell is
/// filled, also where there are fewer sources than cells.
pub proof fn lemma_plan_fills_every_cell(
    p: TileParams,
    n: usize,
    plan: Seq<Placement>,
    i: int,
    j: int,
)
    requires
        paintable(p),
        n > 0,
        is_plan(p, n as int, plan),
        0 <= i < p.dims.1,
        0 <= j < p.dims.0,
    ensures
        ({
            let k = i * p.dims.0 + j;
            &&& 0 <= k < plan.len()
            &&& plan[k].source == k % (n as int)
            &&& plan[k].source < n
            &&& plan[k].x == j * cropped_width(p)
            &&& plan[k].y == i * cropped_height(p)
            &&& plan[k].x + cropped_width(p) <= canvas_width(p)
            &&& plan[k].y + cropped_height(p) <= canvas_height(p)
        }),
{
    lemma_cell_position(p, i, j);
    let k = i * p.dims.0 + j;
    assert(plan[k] == placement_of(p, n as int, k));
    vstd::arithmetic::div_mod::lemma_mod_bound(k, n as int);
}

/// Each planned cell's tile lies inside the canvas.
proof fn lemma_placement_inside(p: TileParams, n: usize, k: int)
    requires
        paintable(p),
        n > 0,
        0 <= k < cell_count(p),
    ensures
        placement_of(p, n as int, k).x + cropped_width(p) <= canvas_width(p),
        placement_of(p, n as int, k).y + cropped_height(p) <= canvas_height(p),
        placement_of(p, n as int, k).source < n,
{
    let cols = p.dims.0 as int;
    let i = k / cols;
    let j = k % cols;
    vstd::arithmetic::div_mod::lemma_fundamental_div_mod(k, cols);
    vstd::arithmetic::div_mod::lemma_mod_bound(k, cols);
    vstd::arithmetic::div_mod::lemma_div_pos_is_pos(k, cols);
    if i >= p.dims.1 {
        assert(cols * i >= cols * p.dims.1) by (nonlinear_arith)
            requires
                i >= p.dims.1,
                cols > 0,
        ;
    }
    lemma_cell_position(p, i, j);
    vstd::arithmetic::div_mod::lemma_mod_bound(k, n as int);
}

/// A tile fits a cell of `p` when it is no larger than the cropped tile size.
pub open spec fn fits_cell(p: TileParams, img: DynamicImage) -> bool {
    image_dims(img).0 <= cropped_width(p) && image_dims(img).1 <= cropped_height(p)
}

/// A source that can be resized into a tile of `p`: it holds at least one
/// pixel, and the buffer the resize samples through, its width by the tile
/// height in float RGBA, has a length that fits `usize`.
pub open spec fn resizable(p: TileParams, img: DynamicImage) -> bool {
    &&& image_dims(img).0 > 0
    &&& image_dims(img).1 > 0
    &&& 4 * image_dims(img).0 <= usize::MAX
    &&& 4 * image_dims(img).0 * p.image_res.1 <= usize::MAX
}

/// A tile layout that `prepare_tile` can apply: a tile of at least one pixel
/// whose RGBA buffer fits `usize`, and crops within the tile.
pub open spec fn preparable(p: TileParams) -> bool {
    &&& p.image_res.0 > 0
    &&& p.image_res.1 > 0
    &&& 4 * p.image_res.0 <= usize::MAX
    &&& 4 * p.image_res.0 * p.image_res.1 <= usize::MAX
    &&& p.image_adjust.0 <= p.image_res.0
    &&& p.image_adjust.1 <= p.image_res.1
}

/// A source the compositor takes for `p`: resizable, without float samples.
pub open spec fn usable_image(p: TileParams, img: DynamicImage) -> bool {
    resizable(p, img) && !has_float_samples(img)
}

/// The tile of `p` made from `img`: resized into `image_res`, then cut to the
/// cropped tile size at half the crop from the top-left corner.
pub open spec fn prepared_of(p: TileParams, img: DynamicImage) -> DynamicImage {
    cropped_of(
        resized_of(img, p.image_res.0, p.image_res.1),
        p.image_adjust.0 / 2,
        p.image_adjust.1 / 2,
        (p.image_res.0 - p.image_adjust.0) as u32,
        (p.image_res.1 - p.image_adjust.1) as u32,
    )
}

/// `base` with the first `k` cells of the plan for `tiles` pasted in turn:
/// cell `i` gets tile `i mod tiles.len()` at `placement_of(p, tiles.len(), i)`.
pub open spec fn painted(p: TileParams, tiles: Seq<DynamicImage>, base: DynamicImage, k: nat) ->
    DynamicImage
    decreases k,
{
    if k == 0 {
        base
    } else {
        let place = placement_of(p, tiles.len() as int, k - 1);
        pasted_of(
            painted(p, tiles, base, (k - 1) as nat),
            tiles[place.source as int],
            place.x,
            place.y,
        )
    }
}

/// The composite of `tiles` on `p`: a blank canvas of the canvas size with
/// every cell painted, row by row.
pub open spec fn composite_of(p: TileParams, tiles: Seq<DynamicImage>) -> DynamicImage {
    painted(
        p,
        tiles,
        blank_of(canvas_width(p) as u32, canvas_height(p) as u32),
        cell_count(p) as nat,
    )
}

/// Turns one source image into a tile of `p`: resizes it to exactly
/// `image_res` with a Lanczos filter, then crops half of `image_adjust` from
/// the top and left, rounding down, so that the tile is exactly the cropped
/// tile size, the size of a cell.
pub fn prepare_tile(img: &DynamicImage, p: &TileParams) -> (r: DynamicImage)
    requires
        preparable(*p),
        resizable(*p, *img),
    ensures
        r == prepared_of(*p, *img),
        image_dims(r) == (cropped_width(*p) as u32, cropped_height(*p) as u32),
        fits_cell(*p, r),
        has_float_samples(r) == has_float_samples(*img),
{
    let resized = resize_lanczos(img, p.image_res.0, p.image_res.1);
    crop(
        &resized,
        p.image_adjust.0 / 2,
        p.image_adjust.1 / 2,
        p.image_res.0 - p.image_adjust.0,
        p.image_res.1 - p.image_adjust.1,
    )
}

/// `prepare_tile` where it applies: `None` unless the layout is `preparable`
/// and the source `resizable`.
pub fn prepare_tile_checked(img: &DynamicImage, p: &TileParams) -> (r: Option<DynamicImage>)
    ensures
        preparable(*p) && resizable(*p, *img) ==> r == Some(prepared_of(*p, *img)),
        !(preparable(*p) && resizable(*p, *img)) ==> r is None,
{
    if !is_preparable(p) || !is_resizable(img, p) {
        return None;
    }
    Some(prepare_tile(img, p))
}

/// Whether `p` is `preparable`.
fn is_preparable(p: &TileParams) -> (r: bool)
    ensures
        r == preparable(*p),
{
    p.image_res.0 > 0 && p.image_res.1 > 0 && p.image_adjust.0 <= p.image_res.0
        && p.image_adjust.1 <= p.image_res.1 && rgba_buffer_fits(p.image_res.0, p.image_res.1)
}

/// Whether `img` is `resizable` for `p`.
fn is_resizable(img: &DynamicImage, p: &TileParams) -> (r: bool)
    ensures
        r == resizable(*p, *img),
{
    let (w, h) = dimensions(img);
    w > 0 && h > 0 && rgba_buffer_fits(w, p.image_res.1)
}

/// Paints `tiles` into a fresh canvas of `p`'s canvas size, cell `k` (row by
/// row) from tile `k mod tiles.len()` at its place in the grid (see
/// `tile_placements`).
///
/// No tiles give `Ok(None)`; a layout that is not `paintable` gives
/// `InvalidLayout`; otherwise the first tile that is larger than a cell gives
/// `TileTooLarge`, or that stores float samples `UnusableImage`; where all
/// are fine the composite is returned.
pub fn compose(tiles: &Vec<DynamicImage>, p: &TileParams) -> (r: Result<
    Option<DynamicImage>,
    TileError,
>)
    ensures
        tiles@.len() == 0 ==> r == Ok::<Option<DynamicImage>, TileError>(None),
        tiles@.len() > 0 && !paintable(*p) ==> r == Err::<Option<DynamicImage>, TileError>(
            TileError::InvalidLayout,
        ),
        tiles@.len() > 0 && paintable(*p) ==> (r is Ok <==> forall|i: int|
            0 <= i < tiles@.len() ==> fits_cell(*p, #[trigger] tiles@[i]) && !has_float_samples(
                tiles@[i],
            )),
        r is Ok && tiles@.len() > 0 ==> r == Ok::<Option<DynamicImage>, TileError>(
            Some(composite_of(*p, tiles@)),
        ),
        r is Ok && tiles@.len() > 0 ==> image_dims(composite_of(*p, tiles@)) == (
            canvas_width(*p) as u32,
            canvas_height(*p) as u32,
        ),
        r is Err && (r->Err_0 is TileTooLarge || r->Err_0 is UnusableImage) ==> ({
            let index = if r->Err_0 is TileTooLarge {
                r->Err_0->TileTooLarge_index as int
            } else {
                r->Err_0->UnusableImage_index as int
            };
            &&& 0 <= index < tiles@.len()
            &&& r->Err_0 is TileTooLarge <==> !fits_cell(*p, tiles@[index])
            &&& r->Err_0 is UnusableImage ==> has_float_samples(tiles@[index])
            &&& forall|i: int|
                0 <= i < index ==> fits_cell(*p, #[trigger] tiles@[i]) && !has_float_samples(
                    tiles@[i],
                )
        }),
        r is Err ==> r->Err_0 is TileTooLarge || r->Err_0 is UnusableImage || r->Err_0 is InvalidLayout,
        tiles@.len() > 0 && paintable(*p) && r is Err ==> r->Err_0 is TileTooLarge
            || r->Err_0 is UnusableImage,
{
    if tiles.len() == 0 {
        return Ok(None);
    }
    if !is_paintable(p) {
        return Err(TileError::InvalidLayout);
    }
    let tw: u32 = p.image_res.0 - p.image_adjust.0;
    let th: u32 = p.image_res.1 - p.image_adjust.1;
    let mut i: usize = 0;
    while i < tiles.len()
        invariant
            paintable(*p),
            tiles@.len() > 0,
            tw == cropped_width(*p),
            th == cropped_height(*p),
            i <= tiles@.len(),
            forall|m: int|
                0 <= m < i ==> fits_cell(*p, #[trigger] tiles@[m]) && !has_float_samples(
                    tiles@[m],
                ),
        decreases tiles@.len() - i,
    {
        let d = dimensions(&tiles[i]);
        if d.0 > tw || d.1 > th {
            return Err(TileError::TileTooLarge { index: i });
        }
        if is_float_image(&tiles[i]) {
            return Err(TileError::UnusableImage { index: i });
        }
        i = i + 1;
    }
    let (w, h) = canvas_size(p);
    let mut canvas = blank_canvas(w, h);
    let plan = tile_placements(p, tiles.len());
    let mut k: usize = 0;
    while k < plan.len()
        invariant
            paintable(*p),
            tiles@.len() > 0,
            tw == cropped_width(*p),
            th == cropped_height(*p),
            w == canvas_width(*p),
            h == canvas_height(*p),
            image_dims(canvas) == (w, h),
            canvas == painted(*p, tiles@, blank_of(w, h), k as nat),
            is_plan(*p, tiles@.len() as int, plan@),
            k <= plan@.len(),
            forall|m: int|
                0 <= m < tiles@.len() ==> fits_cell(*p, #[trigger] tiles@[m]) && !has_float_samples(
                    tiles@[m],
                ),
        decreases plan@.len() - k,
    {
        let place = plan[k];
        proof {
            lemma_placement_inside(*p, tiles.len(), k as int);
            assert(place == placement_of(*p, tiles@.len() as int, k as int));
            assert(fits_cell(*p, tiles@[place.source as int]));
        }
        match paste(&mut canvas, &tiles[place.source], place.x, place.y) {
            Ok(()) => {},
            Err(_) => {
                return Err(TileError::InvalidLayout);
            },
        }
        k = k + 1;
    }
    Ok(Some(canvas))
}

/// Every source image is usable.
pub open spec fn all_usable(p: TileParams, sources: Seq<DynamicImage>) -> bool {
    forall|i: int| 0 <= i < sources.len() ==> usable_image(p, #[trigger] sources[i])
}

/// The tiles of `p` made from `sources`, in order.
pub open spec fn prepared_all(p: TileParams, sources: Seq<DynamicImage>) -> Seq<DynamicImage> {
    Seq::new(sources.len(), |i: int| prepared_of(p, sources[i]))
}

/// Builds the composite of `sources` on `p`: every source is turned into a
/// tile (see `prepare_tile`) and the tiles are painted (see `compose`).
///
/// No sources give `Ok(None)`; a layout that is not `paintable` gives
/// `InvalidLayout`; the first source that is not `usable_image` gives
/// `UnusableImage`. Otherwise every tile is exactly the size of a cell and
/// the composite is returned, exactly `dims * (image_res - image_adjust)`
/// pixels in size.
pub fn build_canvas(sources: &Vec<DynamicImage>, p: &TileParams) -> (r: Result<
    Option<DynamicImage>,
    TileError,
>)
    ensures
        sources@.len() == 0 ==> r == Ok::<Option<DynamicImage>, TileError>(None),
        sources@.len() > 0 && !paintable(*p) ==> r == Err::<Option<DynamicImage>, TileError>(
            TileError::InvalidLayout,
        ),
        sources@.len() > 0 && paintable(*p) && all_usable(*p, sources@) ==> r == Ok::<
            Option<DynamicImage>,
            TileError,
        >(Some(composite_of(*p, prepared_all(*p, sources@)))),
        sources@.len() > 0 && paintable(*p) && all_usable(*p, sources@) ==> forall|i: int|
            0 <= i < sources@.len() ==> image_dims(#[trigger] prepared_all(*p, sources@)[i]) == (
                cropped_width(*p) as u32,
                cropped_height(*p) as u32,
            ),
        sources@.len() > 0 && paintable(*p) && all_usable(*p, sources@) ==> image_dims(
            composite_of(*p, prepared_all(*p, sources@)),
        ) == (canvas_width(*p) as u32, canvas_height(*p) as u32),
        sources@.len() > 0 && paintable(*p) && !all_usable(*p, sources@) ==> ({
            &&& r is Err
            &&& r->Err_0 is UnusableImage
            &&& 0 <= r->Err_0->UnusableImage_index < sources@.len()
            &&& !usable_image(*p, sources@[r->Err_0->UnusableImage_index as int])
            &&& forall|i: int|
                0 <= i < r->Err_0->UnusableImage_index ==> usable_image(*p, #[trigger] sources@[i])
        }),
{
    if sources.len() == 0 {
        return Ok(None);
    }
    if !is_paintable(p) {
        return Err(TileError::InvalidLayout);
    }
    let mut tiles: Vec<DynamicImage> = Vec::new();
    let mut i: usize = 0;
    while i < sources.len()
        invariant
            paintable(*p),
            i <= sources@.len(),
            tiles@.len() == i,
            forall|m: int| 0 <= m < i ==> usable_image(*p, #[trigger] sources@[m]),
            forall|m: int|
                0 <= m < i ==> #[trigger] tiles@[m] == prepared_of(*p, sources@[m]) && fits_cell(
                    *p,
                    tiles@[m],
                ) && !has_float_samples(tiles@[m]) && image_dims(tiles@[m]) == (
                    cropped_width(*p) as u32,
                    cropped_height(*p) as u32,
                ),
        decreases sources@.len() - i,
    {
        if !is_resizable(&sources[i], p) || is_float_image(&sources[i]) {
            return Err(TileError::UnusableImage { index: i });
        }
        let tile = prepare_tile(&sources[i], p);
        tiles.push(tile);
        i = i + 1;
    }
    assert(tiles@ =~= prepared_all(*p, sources@));
    compose(&tiles, p)
}

/// Places `right` beside `left` on one blank canvas as wide as both together
/// and as tall as `left`: `left` at (0, 0), `right` at (left width, 0).
///
/// A canvas whose width overflows `u32`, or whose RGBA buffer overflows
/// `usize`, gives `CanvasTooLarge`; an image with float samples gives
/// `UnusableImage` with its index (0 for `left`, 1 for `right`); a `right`
/// taller than `left` gives `TileTooLarge` with index 1.
pub fn merge_two(left: &DynamicImage, right: &DynamicImage) -> (r: Result<DynamicImage, TileError>)
    ensures
        ({
            let (lw, lh) = image_dims(*left);
            let (rw, rh) = image_dims(*right);
            let fits = lw + rw <= u32::MAX && 4 * (lw + rw) <= usize::MAX && 4 * (lw + rw) * lh
                <= usize::MAX;
            &&& !fits ==> r == Err::<DynamicImage, TileError>(TileError::CanvasTooLarge)
            &&& fits && has_float_samples(*left) ==> r == Err::<DynamicImage, TileError>(
                TileError::UnusableImage { index: 0 },
            )
            &&& fits && !has_float_samples(*left) && has_float_samples(*right) ==> r == Err::<
                DynamicImage,
                TileError,
            >(TileError::UnusableImage { index: 1 })
            &&& fits && !has_float_samples(*left) && !has_float_samples(*right) && rh > lh ==> r
                == Err::<DynamicImage, TileError>(TileError::TileTooLarge { index: 1 })
            &&& fits && !has_float_samples(*left) && !has_float_samples(*right) && rh <= lh ==> r
                == Ok::<DynamicImage, TileError>(
                pasted_of(
                    pasted_of(blank_of((lw + rw) as u32, lh), *left, 0, 0),
                    *right,
                    lw,
                    0,
                ),
            )
        }),
        r is Ok ==> image_dims(r->Ok_0) == (
            (image_dims(*left).0 + image_dims(*right).0) as u32,
            image_dims(*left).1,
        ),
{
    let (lw, lh) = dimensions(left);
    let (rw, rh) = dimensions(right);
    if lw as u64 + rw as u64 > 0xffff_ffffu64 {
        return Err(TileError::CanvasTooLarge);
    }
    let w: u32 = lw + rw;
    assert(4 * w * lh <= 4 * 0xffff_ffff_ffff_ffffu128 + 4) by (nonlinear_arith)
        requires
            w <= 0xffff_ffffu32,
            lh <= 0xffff_ffffu32,
    ;
    if 4 * (w as u128) > usize::MAX as u128 || 4 * (w as u128) * (lh as u128) > usize::MAX as u128 {
        return Err(TileError::CanvasTooLarge);
    }
    if is_float_image(left) {
        return Err(TileError::UnusableImage { index: 0 });
    }
    if is_float_image(right) {
        return Err(TileError::UnusableImage { index: 1 });
    }
    if rh > lh {
        return Err(TileError::TileTooLarge { index: 1 });
    }
    let mut canvas = blank_canvas(w, lh);
    match paste(&mut canvas, left, 0, 0) {
        Ok(()) => {},
        Err(_) => {
            return Err(TileError::CanvasTooLarge);
        },
    }
    match paste(&mut canvas, right, lw, 0) {
        Ok(()) => {},
        Err(_) => {
            return Err(TileError::CanvasTooLarge);
        },
    }
    Ok(canvas)
}

/// The layout decision of a tile build over `image_count` images whose first
/// one measures `first_image_dims`, for a container of `monitor`: nothing to
/// do for no images; `InvalidInput` for a zero size or a count beyond `u32`;
/// otherwise the search with `image_count` as the minimum cell count and no
/// size floor.
pub fn plan_tile(first_image_dims: (u32, u32), monitor: (u32, u32), image_count: usize) -> (r:
    Result<Option<TileParams>, TileError>)
    ensures
        image_count == 0 ==> r == Ok::<Option<TileParams>, TileError>(None),
        image_count > 0 && (!positive(first_image_dims) || !positive(monitor) || image_count
            > u32::MAX) ==> r == Err::<Option<TileParams>, TileError>(TileError::InvalidInput),
        image_count > 0 && positive(first_image_dims) && positive(monitor) && image_count
            <= u32::MAX ==> r == Ok::<Option<TileParams>, TileError>(
            optimal_tile(first_image_dims, monitor, image_count as u32, (0, 0)),
        ),
{
    if image_count == 0 {
        return Ok(None);
    }
    if first_image_dims.0 == 0 || first_image_dims.1 == 0 || monitor.0 == 0 || monitor.1 == 0
        || image_count > 0xffff_ffffusize {
        return Err(TileError::InvalidInput);
    }
    Ok(find_optimal_tile(first_image_dims, monitor, image_count as u32, (0, 0)))
}

} // verus!
