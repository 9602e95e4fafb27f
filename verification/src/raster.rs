//! An RGBA raster held as plain bytes, and the two operations on it that the
//! `image` crate performs: cutting out a rectangle and resampling.

use vstd::prelude::*;

use crate::color::Rgba;

verus! {

/// The mathematical content of a raster: its size and its bytes, four per
/// pixel (red, green, blue, alpha), rows from top to bottom.
pub struct RasterView {
    pub width: u32,
    pub height: u32,
    pub data: Seq<u8>,
}

impl RasterView {
    /// A raster has at least one pixel and exactly four bytes for each.
    pub open spec fn wf(self) -> bool {
        &&& self.width >= 1
        &&& self.height >= 1
        &&& self.data.len() == 4 * self.width * self.height
    }

    /// Index of the first byte of pixel `(x, y)`.
    pub open spec fn offset(self, x: int, y: int) -> int {
        4 * (y * self.width + x)
    }

    /// The pixel in column `x` of row `y`.
    pub open spec fn pixel(self, x: int, y: int) -> Rgba {
        let i = self.offset(x, y);
        Rgba { r: self.data[i], g: self.data[i + 1], b: self.data[i + 2], a: self.data[i + 3] }
    }

    /// Whether every pixel of this raster is a pixel of `src`.
    pub open spec fn taken_from(self, src: RasterView) -> bool {
        forall|x: int, y: int|
            0 <= x < self.width && 0 <= y < self.height ==> exists|sx: int, sy: int|
                0 <= sx < src.width && 0 <= sy < src.height && #[trigger] self.pixel(x, y)
                    == #[trigger] src.pixel(sx, sy)
    }

    /// The rectangle of `width` by `height` pixels whose top left corner is
    /// pixel `(x, y)` of this raster.
    pub open spec fn cropped(self, x: u32, y: u32, width: u32, height: u32) -> RasterView {
        RasterView {
            width,
            height,
            data: Seq::new(
                (4 * width * height) as nat,
                |k: int| self.data[self.offset(x + (k / 4) % (width as int), y + (k / 4) / (width as int)) + k % 4],
            ),
        }
    }
}

/// Pixel `(x, y)` of a raster of the given size lies before the end of its
/// rows laid out one after another.
pub proof fn lemma_offset_in_bounds(width: int, height: int, x: int, y: int)
    requires
        0 <= x < width,
        0 <= y < height,
    ensures
        0 <= y * width + x < width * height,
        0 <= y * width,
        y * width <= (height - 1) * width,
{
    assert(y * width <= (height - 1) * width) by (nonlinear_arith)
        requires 0 <= y <= height - 1, 0 <= width;
    assert((height - 1) * width == width * height - width) by (nonlinear_arith);
    assert(0 <= y * width) by (nonlinear_arith)
        requires 0 <= y, 0 <= width;
}

/// A crop holds the source's pixels: pixel `(i, j)` of the rectangle cut
/// out at `(x, y)` is pixel `(x + i, y + j)` of the source.
pub proof fn lemma_cropped_pixel(src: RasterView, x: u32, y: u32, width: u32, height: u32, i: int, j: int)
    requires
        src.wf(),
        x + width <= src.width,
        y + height <= src.height,
        0 <= i < width,
        0 <= j < height,
    ensures
        src.cropped(x, y, width, height).wf(),
        src.cropped(x, y, width, height).pixel(i, j) == src.pixel(x + i, y + j),
{
    let out = src.cropped(x, y, width, height);
    let w = width as int;
    lemma_offset_in_bounds(w, height as int, i, j);
    let p = j * w + i;
    assert(4 * width * height == 4 * (w * height)) by (nonlinear_arith)
        requires w == width;
    vstd::arithmetic::div_mod::lemma_fundamental_div_mod_converse(p, w, j, i);
    assert forall|c: int| 0 <= c < 4 implies #[trigger] out.data[4 * p + c] == src.data[src.offset(
        x + i,
        y + j,
    ) + c] by {
        let k = 4 * p + c;
        assert(k / 4 == p && k % 4 == c);
    }
    assert(out.offset(i, j) == 4 * p);
    assert(out.data[4 * p + 0] == src.data[src.offset(x + i, y + j) + 0]);
}

/// The crop that takes in the whole raster is the raster itself.
pub proof fn lemma_whole_crop_is_identity(src: RasterView)
    requires
        src.wf(),
    ensures
        src.cropped(0, 0, src.width, src.height) == src,
{
    let out = src.cropped(0, 0, src.width, src.height);
    let w = src.width as int;
    assert forall|k: int| 0 <= k < src.data.len() implies #[trigger] out.data[k] == src.data[k] by {
        let p = k / 4;
        vstd::arithmetic::div_mod::lemma_fundamental_div_mod(p, w);
        assert(w * (p / w) == (p / w) * w) by (nonlinear_arith);
    }
    assert(out.data =~= src.data);
}

/// An image of 8-bit RGBA pixels.
pub struct Raster {
    width: u32,
    height: u32,
    data: Vec<u8>,
}

impl View for Raster {
    type V = RasterView;

    closed spec fn view(&self) -> RasterView {
        RasterView { width: self.width, height: self.height, data: self.data@ }
    }
}

impl Raster {
    #[verifier::type_invariant]
    spec fn inv(self) -> bool {
        self@.wf()
    }

    /// Takes `data` as the pixels of a `width` by `height` image; `None`
    /// when the image would be empty or `data` is not four bytes per pixel.
    pub fn new(width: u32, height: u32, data: Vec<u8>) -> (out: Option<Raster>)
        ensures
            out is Some <==> width >= 1 && height >= 1 && data@.len() == 4 * width * height,
            out matches Some(r) ==> r@ == (RasterView { width, height, data: data@ }),
    {
        assert(4 * width * height <= 4 * 0xffff_ffff * 0xffff_ffff) by (nonlinear_arith)
            requires width <= 0xffff_ffff, height <= 0xffff_ffff;
        let need: u128 = 4 * (width as u128) * (height as u128);
        if width >= 1 && height >= 1 && data.len() as u128 == need {
            Some(Raster { width, height, data })
        } else {
            None
        }
    }

    /// The number of pixel columns.
    pub fn width(&self) -> (w: u32)
        ensures
            w == self@.width,
            self@.wf(),
    {
        proof { use_type_invariant(self); }
        self.width
    }

    /// The number of pixel rows.
    pub fn height(&self) -> (h: u32)
        ensures
            h == self@.height,
            self@.wf(),
    {
        proof { use_type_invariant(self); }
        self.height
    }

    /// The pixel in column `x` of row `y`.
    pub fn pixel(&self, x: u32, y: u32) -> (p: Rgba)
        requires
            x < self@.width,
            y < self@.height,
        ensures
            p == self@.pixel(x as int, y as int),
    {
        proof {
            use_type_invariant(self);
            lemma_offset_in_bounds(self.width as int, self.height as int, x as int, y as int);
            assert(self.data.len() == 4 * (self.width * self.height)) by (nonlinear_arith)
                requires self.data@.len() == 4 * self.width * self.height;
        }
        let row: usize = y as usize * self.width as usize;
        let i: usize = 4 * (row + x as usize);
        Rgba { r: self.data[i], g: self.data[i + 1], b: self.data[i + 2], a: self.data[i + 3] }
    }
}

/// Whether this machine can hold the buffers that resampling a raster
/// `width` pixels wide into a grid of `nwidth` by `nheight` pixels needs:
/// an intermediate image of `width` by `nheight` pixels at sixteen bytes
/// each, and the result at four.
pub open spec fn resample_fits(width: u32, nwidth: u32, nheight: u32) -> bool {
    &&& 16 * width * nheight <= isize::MAX
    &&& 4 * nwidth * nheight <= isize::MAX
}

/// Tests whether this machine can hold the buffers of a resampling.
pub fn can_resample(width: u32, nwidth: u32, nheight: u32) -> (fits: bool)
    ensures
        fits == resample_fits(width, nwidth, nheight),
{
    assert(16 * width * nheight <= 16 * 0xffff_ffff * 0xffff_ffff) by (nonlinear_arith)
        requires width <= 0xffff_ffff, nheight <= 0xffff_ffff;
    assert(4 * nwidth * nheight <= 4 * 0xffff_ffff * 0xffff_ffff) by (nonlinear_arith)
        requires nwidth <= 0xffff_ffff, nheight <= 0xffff_ffff;
    let limit: u128 = isize::MAX as u128;
    16 * (width as u128) * (nheight as u128) <= limit && 4 * (nwidth as u128) * (nheight as u128)
        <= limit
}

/// What `image::DynamicImage::resize` with the nearest-neighbour filter
/// makes of an RGBA8 image: the new width, the new height and the new bytes,
/// as a function of the old bytes, the old size and the bounds to fit.
pub uninterp spec fn resized(data: Seq<u8>, width: u32, height: u32, nwidth: u32, nheight: u32) -> (u32, u32, Seq<u8>);

/// `image::DynamicImage::crop` on an RGBA8 image. The rectangle asked for
/// lies inside the image, so nothing is cut off: the result has exactly the
/// size asked for and holds the source's pixels from `(x, y)` on.
#[verifier::external_body]
pub(crate) fn crop(src: &Raster, x: u32, y: u32, width: u32, height: u32) -> (out: Raster)
    requires
        src@.wf(),
        width >= 1,
        height >= 1,
        x + width <= src@.width,
        y + height <= src@.height,
    ensures
        out@ == src@.cropped(x, y, width, height),
{
    let whole = image::RgbaImage::from_raw(src.width, src.height, src.data.clone()).unwrap();
    let part = image::DynamicImage::ImageRgba8(whole).crop(x, y, width, height).into_rgba8();
    Raster { width: part.width(), height: part.height(), data: part.into_raw() }
}

/// `image::DynamicImage::resize` with `FilterType::Nearest` on an RGBA8
/// image. The result is the named function of the arguments. Of its size the
/// contract claims what the crate documents: the aspect ratio is kept and
/// the image is made as large as fits within `nwidth` by `nheight`, so it
/// fits both bounds and meets one of them; no side is shorter than one
/// pixel. Of its pixels it claims what nearest-neighbour sampling means:
/// each is one of the source's, unmixed. The bounds on the arguments keep
/// the crate's two allocations within what a vector can hold.
#[verifier::external_body]
pub(crate) fn resize(src: &Raster, nwidth: u32, nheight: u32) -> (out: Raster)
    requires
        src@.wf(),
        nwidth >= 1,
        nheight >= 1,
        resample_fits(src@.width, nwidth, nheight),
    ensures
        (out@.width, out@.height, out@.data) == resized(src@.data, src@.width, src@.height, nwidth, nheight),
        out@.wf(),
        out@.width <= nwidth,
        out@.height <= nheight,
        out@.width == nwidth || out@.height == nheight,
        out@.taken_from(src@),
{
    let whole = image::RgbaImage::from_raw(src.width, src.height, src.data.clone()).unwrap();
    let small = image::DynamicImage::ImageRgba8(whole)
        .resize(nwidth, nheight, image::imageops::FilterType::Nearest)
        .into_rgba8();
    Raster { width: small.width(), height: small.height(), data: small.into_raw() }
}

} // verus!
