//! Viewport geometry in fixed point: how a centre and a magnification select
//! a rectangle of source pixels for a grid of terminal cells.
//!
//! Coordinates, sizes and factors that are not whole numbers are held as
//! integers counting thousandths ([`UNIT`] to the whole). Conversions to whole
//! pixels round down.

use vstd::prelude::*;

verus! {

/// The number of fixed-point steps that make up one whole: a coordinate of
/// `1500` lies half a pixel past pixel one, a magnification of `1000` shows
/// the image at its fitted size.
pub const UNIT: u32 = 1000;

/// The smallest magnification; a smaller one is read as this one.
pub const MIN_MAGNIFY: u32 = 1000;

/// The pixel grid that a grid of terminal cells offers: one pixel across and
/// two down for every cell.
pub open spec fn grid_of(cells: (u16, u16)) -> (u32, u32) {
    (cells.0 as u32, (2 * cells.1) as u32)
}

/// The sides of that pixel grid as mathematical integers: width, then
/// height.
pub open spec fn grid_sides(cells: (u16, u16)) -> (int, int) {
    (cells.0 as int, 2 * cells.1)
}

/// The magnification that the geometry works with.
pub open spec fn effective_magnify(magnify: u32) -> int {
    if magnify < 1000 { 1000 } else { magnify as int }
}

/// Whether the image is taller, relative to its width, than the grid:
/// `image_h / image_w > grid_h / grid_w`.
pub open spec fn is_tall(img: (u32, u32), grid: (int, int)) -> bool {
    img.1 * grid.0 > grid.1 * img.0
}

/// The image side that is shown in full at magnification one: the height of
/// a tall image, the width of any other.
pub open spec fn fit_base(img: (u32, u32), grid: (int, int)) -> int {
    if is_tall(img, grid) { img.1 as int } else { img.0 as int }
}

/// The grid side along which the image is fitted.
pub open spec fn fit_span(img: (u32, u32), grid: (int, int)) -> int {
    if is_tall(img, grid) { grid.1 } else { grid.0 }
}

/// Numerator of the exact clip size, in source pixels, along the grid side
/// `side`; [`clip_den`] is its denominator. The clip is the fitted region
/// divided by the magnification: `base * side / span / (magnify / UNIT)`.
pub open spec fn clip_num(img: (u32, u32), grid: (int, int), side: int) -> int {
    fit_base(img, grid) * side * 1000
}

/// Denominator of the exact clip size.
pub open spec fn clip_den(img: (u32, u32), grid: (int, int), magnify: u32) -> int {
    fit_span(img, grid) * effective_magnify(magnify)
}

/// The clip size in fixed point, rounded down: width, then height.
pub open spec fn clip_size_spec(img: (u32, u32), cells: (u16, u16), magnify: u32) -> (i64, i64) {
    let grid = grid_sides(cells);
    let den = clip_den(img, grid, magnify);
    (
        ((clip_num(img, grid, grid.0) * 1000) / den) as i64,
        ((clip_num(img, grid, grid.1) * 1000) / den) as i64,
    )
}

/// A rectangle of source pixels.
#[derive(Clone, Copy, Debug, PartialEq, Eq, Structural)]
pub struct CropRect {
    pub x: u32,
    pub y: u32,
    pub width: u32,
    pub height: u32,
}

/// Where a clip of extent `clip` centred on `center` begins, in whole
/// pixels: `center - clip / 2` rounded down, and no less than zero.
pub open spec fn crop_origin(center: i64, clip: i64) -> int {
    let twice = 2 * center - clip;
    if twice <= 0 {
        0
    } else if twice / 2000 > u32::MAX {
        u32::MAX as int
    } else {
        twice / 2000
    }
}

/// The whole pixels in a clip of extent `clip`.
pub open spec fn crop_len(clip: i64) -> int {
    if clip <= 0 {
        0
    } else if (clip as int) / 1000 > u32::MAX {
        u32::MAX as int
    } else {
        (clip as int) / 1000
    }
}

/// The first pixel of the crop along an axis of `size` pixels: the origin,
/// moved back onto the last pixel if it lies beyond.
pub open spec fn crop_start(size: u32, center: i64, clip: i64) -> int {
    if crop_origin(center, clip) > size - 1 { size - 1 } else { crop_origin(center, clip) }
}

/// How many pixels the crop spans along an axis of `size` pixels: the whole
/// pixels of the clip, cut to what lies between the start and the image's
/// edge, and at least one.
pub open spec fn crop_span(size: u32, center: i64, clip: i64) -> int {
    let room = size - crop_start(size, center, clip);
    let len = crop_len(clip);
    if len < 1 { 1 } else if len > room { room } else { len }
}

/// The crop rectangle for an image of size `img`.
pub open spec fn crop_rect_spec(img: (u32, u32), center: (i64, i64), clip: (i64, i64)) -> CropRect {
    CropRect {
        x: crop_start(img.0, center.0, clip.0) as u32,
        y: crop_start(img.1, center.1, clip.1) as u32,
        width: crop_span(img.0, center.0, clip.0) as u32,
        height: crop_span(img.1, center.1, clip.1) as u32,
    }
}

/// The crop rectangle holds at least one pixel and lies inside the image,
/// wherever the centre is and whatever the clip.
pub proof fn lemma_crop_inside_image(img: (u32, u32), center: (i64, i64), clip: (i64, i64))
    requires
        img.0 >= 1,
        img.1 >= 1,
    ensures
        crop_rect_spec(img, center, clip).width >= 1,
        crop_rect_spec(img, center, clip).height >= 1,
        crop_rect_spec(img, center, clip).x + crop_rect_spec(img, center, clip).width <= img.0,
        crop_rect_spec(img, center, clip).y + crop_rect_spec(img, center, clip).height <= img.1,
{
}

/// Zooming in shrinks the clip: for one image and one grid, the exact clip
/// size along either side at the larger of two magnifications, neither below
/// the minimum, is strictly smaller. The two sizes are compared as fractions,
/// `clip_num / clip_den`, by cross-multiplication.
pub proof fn lemma_zoom_shrinks_clip(img: (u32, u32), grid: (int, int), side: int, low: u32, high: u32)
    requires
        img.0 >= 1,
        img.1 >= 1,
        grid.0 >= 1,
        grid.1 >= 1,
        side >= 1,
        MIN_MAGNIFY <= low < high,
    ensures
        clip_den(img, grid, low) > 0,
        clip_den(img, grid, high) > 0,
        clip_num(img, grid, side) * clip_den(img, grid, low) < clip_num(img, grid, side)
            * clip_den(img, grid, high),
{
    let num = clip_num(img, grid, side);
    let span = fit_span(img, grid);
    let base = fit_base(img, grid);
    assert(num > 0) by (nonlinear_arith)
        requires num == base * side * 1000, base >= 1, side >= 1;
    assert(0 < span * low < span * high) by (nonlinear_arith)
        requires span >= 1, 1000 <= low < high;
    assert(num * (span * low) < num * (span * high)) by (nonlinear_arith)
        requires num > 0, span * low < span * high;
}

/// The clip size that the view state caches, rounded down as it is, never
/// grows when the magnification does.
pub proof fn lemma_zoom_never_grows_clip(img: (u32, u32), cells: (u16, u16), low: u32, high: u32)
    requires
        img.0 >= 1,
        img.1 >= 1,
        cells.0 >= 1,
        cells.1 >= 1,
        low <= high,
    ensures
        clip_size_spec(img, cells, high).0 <= clip_size_spec(img, cells, low).0,
        clip_size_spec(img, cells, high).1 <= clip_size_spec(img, cells, low).1,
        clip_size_spec(img, cells, high).0 >= 0,
        clip_size_spec(img, cells, high).1 >= 0,
{
    let grid = grid_sides(cells);
    let span = fit_span(img, grid);
    let base = fit_base(img, grid);
    let m1 = effective_magnify(low);
    let m2 = effective_magnify(high);
    assert(0 < span * m1 <= span * m2) by (nonlinear_arith)
        requires span >= 1, 1000 <= m1 <= m2;
    lemma_clip_bound(base, grid.0, span, m1);
    lemma_clip_bound(base, grid.1, span, m1);
    lemma_clip_bound(base, grid.0, span, m2);
    lemma_clip_bound(base, grid.1, span, m2);
    vstd::arithmetic::div_mod::lemma_div_is_ordered_by_denominator(
        base * grid.0 * 1000 * 1000, span * m1, span * m2);
    vstd::arithmetic::div_mod::lemma_div_is_ordered_by_denominator(
        base * grid.1 * 1000 * 1000, span * m1, span * m2);
}

/// Exactly when the cached clip shrinks: rounded down to thousandths, the
/// clip at the larger magnification is strictly smaller than at the other if
/// and only if a whole thousandth lies between the two exact sizes, that is,
/// if the smaller magnification's cached size is more than the exact size
/// at the larger. (It is not when both round down to the same thousandth.)
pub proof fn lemma_cached_clip_shrinks_iff(img: (u32, u32), cells: (u16, u16), low: u32, high: u32)
    requires
        img.0 >= 1,
        img.1 >= 1,
        cells.0 >= 1,
        cells.1 >= 1,
        low <= high,
    ensures
        ({
            let grid = grid_sides(cells);
            let den = clip_den(img, grid, high);
            &&& clip_size_spec(img, cells, high).0 < clip_size_spec(img, cells, low).0 <==> clip_num(
                img,
                grid,
                grid.0,
            ) * 1000 < clip_size_spec(img, cells, low).0 * den
            &&& clip_size_spec(img, cells, high).1 < clip_size_spec(img, cells, low).1 <==> clip_num(
                img,
                grid,
                grid.1,
            ) * 1000 < clip_size_spec(img, cells, low).1 * den
        }),
{
    let grid = grid_sides(cells);
    let span = fit_span(img, grid);
    let base = fit_base(img, grid);
    let m1 = effective_magnify(low);
    let m2 = effective_magnify(high);
    let d2 = span * m2;
    lemma_clip_bound(base, grid.0, span, m1);
    lemma_clip_bound(base, grid.1, span, m1);
    lemma_clip_bound(base, grid.0, span, m2);
    lemma_clip_bound(base, grid.1, span, m2);
    let n0 = base * grid.0 * 1000 * 1000;
    let n1 = base * grid.1 * 1000 * 1000;
    lemma_floor_bounds(n0, d2);
    lemma_floor_bounds(n1, d2);
    let q0 = clip_size_spec(img, cells, low).0 as int;
    let q1 = clip_size_spec(img, cells, low).1 as int;
    assert(n0 / d2 < q0 <==> n0 < q0 * d2) by (nonlinear_arith)
        requires 0 < d2, (n0 / d2) * d2 <= n0 < (n0 / d2) * d2 + d2;
    assert(n1 / d2 < q1 <==> n1 < q1 * d2) by (nonlinear_arith)
        requires 0 < d2, (n1 / d2) * d2 <= n1 < (n1 / d2) * d2 + d2;
}

/// At the smallest magnification the clip covers the image: it is exactly
/// as long as the image on the fitted side and at least as long on the
/// other.
pub proof fn lemma_fit_covers_image(img: (u32, u32), cells: (u16, u16))
    requires
        img.0 >= 1,
        img.1 >= 1,
        cells.0 >= 1,
        cells.1 >= 1,
    ensures
        clip_size_spec(img, cells, MIN_MAGNIFY).0 >= img.0 * UNIT,
        clip_size_spec(img, cells, MIN_MAGNIFY).1 >= img.1 * UNIT,
        is_tall(img, grid_sides(cells)) ==> clip_size_spec(img, cells, MIN_MAGNIFY).1 == img.1
            * UNIT,
        !is_tall(img, grid_sides(cells)) ==> clip_size_spec(img, cells, MIN_MAGNIFY).0 == img.0
            * UNIT,
{
    let grid = grid_sides(cells);
    let gw = grid.0;
    let gh = grid.1;
    let span = fit_span(img, grid);
    let base = fit_base(img, grid);
    let d = span * 1000;
    lemma_clip_bound(base, gw, span, 1000);
    lemma_clip_bound(base, gh, span, 1000);
    let iw = img.0 as int;
    let ih = img.1 as int;
    // Along the fitted side the quotient is exact; along the other the
    // numerator is at least the image's length times the denominator.
    if is_tall(img, grid) {
        assert(base * gh * 1000 * 1000 == (ih * 1000) * d) by (nonlinear_arith)
            requires base == ih, span == gh, d == span * 1000;
        vstd::arithmetic::div_mod::lemma_div_multiples_vanish(ih * 1000, d);
        assert(base * gw * 1000 * 1000 >= (iw * 1000) * d) by (nonlinear_arith)
            requires base == ih, span == gh, d == span * 1000, ih * gw > gh * iw;
        vstd::arithmetic::div_mod::lemma_div_is_ordered((iw * 1000) * d, base * gw * 1000 * 1000, d);
        vstd::arithmetic::div_mod::lemma_div_multiples_vanish(iw * 1000, d);
    } else {
        assert(base * gw * 1000 * 1000 == (iw * 1000) * d) by (nonlinear_arith)
            requires base == iw, span == gw, d == span * 1000;
        vstd::arithmetic::div_mod::lemma_div_multiples_vanish(iw * 1000, d);
        assert(base * gh * 1000 * 1000 >= (ih * 1000) * d) by (nonlinear_arith)
            requires base == iw, span == gw, d == span * 1000, ih * gw <= gh * iw;
        vstd::arithmetic::div_mod::lemma_div_is_ordered((ih * 1000) * d, base * gh * 1000 * 1000, d);
        vstd::arithmetic::div_mod::lemma_div_multiples_vanish(ih * 1000, d);
    }
}

/// `n / d`, rounded down, times `d` lies within `d` below `n`.
proof fn lemma_floor_bounds(n: int, d: int)
    requires
        0 <= n,
        0 < d,
    ensures
        (n / d) * d <= n < (n / d) * d + d,
{
    vstd::arithmetic::div_mod::lemma_fundamental_div_mod(n, d);
    vstd::arithmetic::div_mod::lemma_mod_bound(n, d);
    assert(d * (n / d) == (n / d) * d) by (nonlinear_arith);
}

/// The clip has the grid's aspect ratio: counted in whole source pixels,
/// its width and height are in the proportion of the grid's to within one
/// pixel on each axis, `-grid_h < clip_w * grid_h - clip_h * grid_w < grid_w`.
pub proof fn lemma_clip_keeps_grid_aspect(img: (u32, u32), cells: (u16, u16), magnify: u32)
    requires
        img.0 >= 1,
        img.1 >= 1,
        cells.0 >= 1,
        cells.1 >= 1,
    ensures
        ({
            let grid = grid_sides(cells);
            let clip = clip_size_spec(img, cells, magnify);
            let w = (clip.0 as int) / (UNIT as int);
            let h = (clip.1 as int) / (UNIT as int);
            -grid.1 < w * grid.1 - h * grid.0 < grid.0
        }),
{
    let grid = grid_sides(cells);
    let gw = grid.0;
    let gh = grid.1;
    let clip = clip_size_spec(img, cells, magnify);
    let span = fit_span(img, grid);
    let base = fit_base(img, grid);
    let m = effective_magnify(magnify);
    let d = span * m;
    let nw = base * gw * 1000 * 1000;
    let nh = base * gh * 1000 * 1000;
    lemma_clip_bound(base, gw, span, m);
    lemma_clip_bound(base, gh, span, m);
    assert(clip.0 == nw / d);
    assert(clip.1 == nh / d);
    let w = (clip.0 as int) / 1000;
    let h = (clip.1 as int) / 1000;
    lemma_floor_bounds(nw, d);
    lemma_floor_bounds(nh, d);
    // With b = base * 1000 * 1000: w * 1000 * d <= b * gw < (w + 1) * 1000 * d, and
    // the same for h with gh.
    let b = base * 1000 * 1000;
    assert(nw == b * gw && nh == b * gh) by (nonlinear_arith)
        requires nw == base * gw * 1000 * 1000, nh == base * gh * 1000 * 1000,
            b == base * 1000 * 1000;
    let e = 1000 * d;
    assert(w * e <= b * gw < (w + 1) * e) by (nonlinear_arith)
        requires
            0 < d,
            e == 1000 * d,
            0 <= clip.0,
            w == clip.0 / 1000,
            (clip.0 as int) * d <= b * gw < (clip.0 as int) * d + d,
    ;
    assert(h * e <= b * gh < (h + 1) * e) by (nonlinear_arith)
        requires
            0 < d,
            e == 1000 * d,
            0 <= clip.1,
            h == clip.1 / 1000,
            (clip.1 as int) * d <= b * gh < (clip.1 as int) * d + d,
    ;
    assert(w * gh - h * gw < gw) by (nonlinear_arith)
        requires
            0 < e,
            0 <= w,
            0 <= h,
            1 <= gw,
            1 <= gh,
            w * e <= b * gw,
            b * gh < (h + 1) * e,
    ;
    assert(-gh < w * gh - h * gw) by (nonlinear_arith)
        requires
            0 < e,
            0 <= w,
            0 <= h,
            1 <= gw,
            1 <= gh,
            h * e <= b * gh,
            b * gw < (w + 1) * e,
    ;
}

/// The pixel grid for `cells` terminal cells.
pub fn pixel_grid(cells: (u16, u16)) -> (grid: (u32, u32))
    ensures
        grid == grid_of(cells),
        grid.0 <= 0xffff,
        grid.1 <= 0x1fffe,
{
    (cells.0 as u32, 2 * (cells.1 as u32))
}

/// The product of two 32-bit numbers, in 64 bits.
fn product(a: u32, b: u32) -> (p: u64)
    ensures
        p == a * b,
{
    assert(a * b <= 0xffff_ffff * 0xffff_ffff) by (nonlinear_arith)
        requires a <= 0xffff_ffff, b <= 0xffff_ffff;
    (a as u64) * (b as u64)
}

/// The clip size along one side never exceeds the fitted size, which fits
/// in 64 bits with room to spare.
proof fn lemma_clip_bound(base: int, side: int, span: int, m: int)
    requires
        1 <= base <= 0xffff_ffff,
        0 <= side <= 0x1fffe,
        1 <= span,
        1000 <= m,
    ensures
        0 <= base * side * 1000 * 1000 <= 0xffff_ffff * 0x1fffe * 1000 * 1000,
        0 < span * m,
        0 <= (base * side * 1000 * 1000) / (span * m) <= 0xffff_ffff * 0x1fffe * 1000,
{
    let num = base * side * 1000 * 1000;
    let den = span * m;
    assert(0 <= base * side <= 0xffff_ffff * 0x1fffe) by (nonlinear_arith)
        requires 1 <= base <= 0xffff_ffff, 0 <= side <= 0x1fffe;
    assert(num == (base * side) * 1000000) by (nonlinear_arith)
        requires num == base * side * 1000 * 1000;
    assert(den >= 1000) by (nonlinear_arith)
        requires den == span * m, 1 <= span, 1000 <= m;
    assert(0 <= num / den <= num / 1000) by (nonlinear_arith)
        requires 0 <= num, den >= 1000;
}

/// The clip size for an image of size `img` shown in `cells` terminal cells
/// at magnification `magnify`.
pub fn clip_size(img: (u32, u32), cells: (u16, u16), magnify: u32) -> (clip: (i64, i64))
    requires
        img.0 >= 1,
        img.1 >= 1,
        cells.0 >= 1,
        cells.1 >= 1,
    ensures
        clip == clip_size_spec(img, cells, magnify),
        clip.0 >= 0,
        clip.1 >= 0,
{
    let grid = pixel_grid(cells);
    let tall: bool = product(img.1, grid.0) > product(grid.1, img.0);
    let base: u128 = if tall { img.1 as u128 } else { img.0 as u128 };
    let span: u128 = if tall { grid.1 as u128 } else { grid.0 as u128 };
    let m: u128 = if magnify < MIN_MAGNIFY { MIN_MAGNIFY as u128 } else { magnify as u128 };
    proof {
        assert(tall == is_tall(img, grid_sides(cells)));
        lemma_clip_bound(base as int, grid.0 as int, span as int, m as int);
        lemma_clip_bound(base as int, grid.1 as int, span as int, m as int);
        assert(span * m <= 0x1fffe * 0xffff_ffff) by (nonlinear_arith)
            requires span <= 0x1fffe, m <= 0xffff_ffff;
    }
    let den: u128 = span * m;
    let w: u128 = (base * (grid.0 as u128) * 1000 * 1000) / den;
    let h: u128 = (base * (grid.1 as u128) * 1000 * 1000) / den;
    (w as i64, h as i64)
}

/// The crop along one axis: its first pixel and its span.
fn crop_axis(size: u32, center: i64, clip: i64) -> (out: (u32, u32))
    requires
        size >= 1,
    ensures
        out.0 == crop_start(size, center, clip),
        out.1 == crop_span(size, center, clip),
        out.1 >= 1,
        out.0 + out.1 <= size,
{
    let twice: i128 = 2 * (center as i128) - (clip as i128);
    let origin: u32 = if twice <= 0 {
        0
    } else if twice / 2000 > u32::MAX as i128 {
        u32::MAX
    } else {
        (twice / 2000) as u32
    };
    let len: u32 = if clip <= 0 {
        0
    } else if clip / 1000 > u32::MAX as i64 {
        u32::MAX
    } else {
        (clip / 1000) as u32
    };
    let start: u32 = if origin > size - 1 { size - 1 } else { origin };
    let room: u32 = size - start;
    let span: u32 = if len < 1 { 1 } else if len > room { room } else { len };
    (start, span)
}

/// The rectangle of source pixels that a clip of size `clip` centred on
/// `center` selects from an image of size `img`. Whatever the centre and the
/// clip, the rectangle holds at least one pixel and lies inside the image.
pub fn crop_rect(img: (u32, u32), center: (i64, i64), clip: (i64, i64)) -> (rect: CropRect)
    requires
        img.0 >= 1,
        img.1 >= 1,
    ensures
        rect == crop_rect_spec(img, center, clip),
        rect.width >= 1,
        rect.height >= 1,
        rect.x + rect.width <= img.0,
        rect.y + rect.height <= img.1,
{
    let (x, width) = crop_axis(img.0, center.0, clip.0);
    let (y, height) = crop_axis(img.1, center.1, clip.1);
    CropRect { x, y, width, height }
}

} // verus!
