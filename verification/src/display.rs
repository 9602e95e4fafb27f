//! The view state and the render pass: from an image, the view state and the
//! terminal's size to the grid of coloured cells.

use vstd::prelude::*;

use crate::compositor::{
    composite, composite_spec, lemma_composite_drawn_from, CellGrid, CellGridView,
};
use crate::geometry::{
    clip_size, clip_size_spec, crop_rect, crop_rect_spec, grid_of, lemma_fit_covers_image,
    pixel_grid, CropRect, MIN_MAGNIFY, UNIT,
};
use crate::raster::{
    can_resample, crop, lemma_whole_crop_is_identity, resample_fits, resize, resized, Raster,
    RasterView,
};

verus! {

/// What is shown of which image: the point of the image at the centre of the
/// viewport, the magnification, and the sizes that the last render derived.
/// Coordinates, sizes and the magnification are in fixed point.
#[derive(Debug, PartialEq, Eq)]
pub struct DisplayInfo {
    pub image_file_path: String,
    /// Magnification; `UNIT` shows the image at its fitted size.
    pub magnify: u32,
    /// The centre of the view in source pixels; negative on either axis
    /// until the first render has placed it.
    pub center: (i64, i64),
    /// Width and height of the region of the image that the viewport shows,
    /// as the last render derived them.
    pub clip_size: (i64, i64),
    /// Size of the image as the first render found it.
    pub img_size: (u32, u32),
    pub show_help: bool,
}

impl Clone for DisplayInfo {
    fn clone(&self) -> (out: DisplayInfo)
        ensures
            out == *self,
    {
        DisplayInfo {
            image_file_path: self.image_file_path.clone(),
            magnify: self.magnify,
            center: self.center,
            clip_size: self.clip_size,
            img_size: self.img_size,
            show_help: self.show_help,
        }
    }
}

impl DisplayInfo {
    /// Whether a render has placed the centre.
    pub open spec fn is_initialized(&self) -> bool {
        self.center.0 >= 0 && self.center.1 >= 0
    }

    /// The magnification is at least the minimum. Once a render has placed
    /// the centre, it lies strictly inside the image and the clip has no
    /// negative side; until then the clip has no positive side.
    pub open spec fn wf(&self) -> bool {
        &&& self.magnify >= MIN_MAGNIFY
        &&& self.is_initialized() ==> {
            &&& 0 < self.center.0 < self.img_size.0 * UNIT
            &&& 0 < self.center.1 < self.img_size.1 * UNIT
            &&& self.clip_size.0 >= 0
            &&& self.clip_size.1 >= 0
        }
        &&& !self.is_initialized() ==> self.clip_size.0 <= 0 && self.clip_size.1 <= 0
    }

    /// The state before the first render of the image at `image_file_path`:
    /// magnification one, the centre not yet placed.
    pub fn new(image_file_path: String) -> (info: DisplayInfo)
        ensures
            info == (DisplayInfo {
                image_file_path,
                magnify: UNIT,
                center: (-1000i64, -1000i64),
                clip_size: (-1000i64, -1000i64),
                img_size: (0u32, 0u32),
                show_help: false,
            }),
            info.wf(),
            !info.is_initialized(),
    {
        DisplayInfo {
            image_file_path,
            magnify: UNIT,
            center: (-1000, -1000),
            clip_size: (-1000, -1000),
            img_size: (0, 0),
            show_help: false,
        }
    }
}

/// The middle of an axis of `size` pixels, in fixed point.
pub open spec fn middle(size: u32) -> i64 {
    ((size * UNIT) / 2) as i64
}

/// The view state after a render of an image of size `img` into `cells`
/// terminal cells. Without cells nothing changes. The first render centres
/// the view and records the image's size, with the whole image as the clip;
/// every later one derives the clip from the magnification.
pub open spec fn mapped_info(img: (u32, u32), info: DisplayInfo, cells: (u16, u16)) -> DisplayInfo {
    if cells.0 == 0 || cells.1 == 0 {
        info
    } else if !info.is_initialized() {
        DisplayInfo {
            center: (middle(img.0), middle(img.1)),
            clip_size: ((img.0 * UNIT) as i64, (img.1 * UNIT) as i64),
            img_size: img,
            ..info
        }
    } else {
        DisplayInfo { clip_size: clip_size_spec(img, cells, info.magnify), ..info }
    }
}

/// The part of the image that a render resamples: all of it on the first
/// render, the crop rectangle afterwards.
pub open spec fn map_source(image: RasterView, info: DisplayInfo, cells: (u16, u16)) -> RasterView {
    if !info.is_initialized() {
        image
    } else {
        let img = (image.width, image.height);
        let rect = crop_rect_spec(img, info.center, clip_size_spec(img, cells, info.magnify));
        image.cropped(rect.x, rect.y, rect.width, rect.height)
    }
}

/// The resampled buffer of a render: the source fitted into the pixel grid
/// of the cells. There is none without cells, nor where the machine cannot
/// hold the buffers.
pub open spec fn map_spec(image: RasterView, info: DisplayInfo, cells: (u16, u16)) -> Option<RasterView> {
    let grid = grid_of(cells);
    let src = map_source(image, info, cells);
    if cells.0 == 0 || cells.1 == 0 || !resample_fits(src.width, grid.0, grid.1) {
        None
    } else {
        let r = resized(src.data, src.width, src.height, grid.0, grid.1);
        Some(RasterView { width: r.0, height: r.1, data: r.2 })
    }
}

/// Selects what `info` shows of `image` and resamples it for a viewport of
/// `viewport_cells` terminal cells, two pixel rows to the cell.
pub fn map(image: &Raster, info: &mut DisplayInfo, viewport_cells: (u16, u16)) -> (out: Option<Raster>)
    ensures
        *final(info) == mapped_info((image@.width, image@.height), *old(info), viewport_cells),
        old(info).wf() ==> final(info).wf(),
        match out {
            Some(r) => {
                &&& map_spec(image@, *old(info), viewport_cells) == Some(r@)
                &&& r@.wf()
                &&& r@.width <= grid_of(viewport_cells).0
                &&& r@.height <= grid_of(viewport_cells).1
                &&& r@.width == grid_of(viewport_cells).0 || r@.height == grid_of(viewport_cells).1
                &&& r@.taken_from(map_source(image@, *old(info), viewport_cells))
            },
            None => map_spec(image@, *old(info), viewport_cells) is None,
        },
{
    let grid = pixel_grid(viewport_cells);
    if viewport_cells.0 == 0 || viewport_cells.1 == 0 {
        return None;
    }
    let img: (u32, u32) = (image.width(), image.height());
    if info.center.0 < 0 || info.center.1 < 0 {
        info.center = (half(img.0), half(img.1));
        info.clip_size = (whole(img.0), whole(img.1));
        info.img_size = img;
        if can_resample(img.0, grid.0, grid.1) {
            Some(resize(image, grid.0, grid.1))
        } else {
            None
        }
    } else {
        let clip = clip_size(img, viewport_cells, info.magnify);
        info.clip_size = clip;
        let rect = crop_rect(img, info.center, clip);
        if can_resample(rect.width, grid.0, grid.1) {
            let part = crop(image, rect.x, rect.y, rect.width, rect.height);
            Some(resize(&part, grid.0, grid.1))
        } else {
            None
        }
    }
}

/// `size` pixels in fixed point.
fn whole(size: u32) -> (out: i64)
    ensures
        out == size * UNIT,
{
    (size as i64) * 1000
}

/// Half of `size` pixels in fixed point.
fn half(size: u32) -> (out: i64)
    ensures
        out == middle(size),
{
    (size as i64) * 1000 / 2
}

/// The cells that a terminal of the given size leaves for the image: all
/// columns, and all rows but the last, which holds the status line.
pub open spec fn viewport_cells(term_width: u16, term_height: u16) -> (u16, u16) {
    (term_width, if term_height == 0 { 0u16 } else { (term_height - 1) as u16 })
}

/// The cell grid of a render. A terminal without room for the image gets a
/// grid without cells; there is no grid where the machine cannot hold the
/// buffers.
pub open spec fn display_spec(image: RasterView, info: DisplayInfo, term_width: u16, term_height: u16) -> Option<CellGridView> {
    let cells = viewport_cells(term_width, term_height);
    if cells.0 == 0 || cells.1 == 0 {
        Some(CellGridView { cols: cells.0 as u32, rows: cells.1 as u32, cells: Seq::empty() })
    } else {
        match map_spec(image, info, cells) {
            Some(r) => Some(composite_spec(r, grid_of(cells))),
            None => None,
        }
    }
}

/// Renders `image` as `info` views it for a terminal of `term_width` columns
/// and `term_height` rows, and updates `info` as [`map`] does.
pub fn display(image: &Raster, info: &mut DisplayInfo, term_width: u16, term_height: u16) -> (out: Option<CellGrid>)
    ensures
        *final(info) == mapped_info(
            (image@.width, image@.height),
            *old(info),
            viewport_cells(term_width, term_height),
        ),
        old(info).wf() ==> final(info).wf(),
        match out {
            Some(g) => {
                &&& display_spec(image@, *old(info), term_width, term_height) == Some(g@)
                &&& g@.cols == viewport_cells(term_width, term_height).0
                &&& g@.rows == viewport_cells(term_width, term_height).1
                &&& g@.drawn_from(
                    map_source(image@, *old(info), viewport_cells(term_width, term_height)),
                )
            },
            None => display_spec(image@, *old(info), term_width, term_height) is None,
        },
{
    let rows: u16 = if term_height == 0 { 0 } else { term_height - 1 };
    let cells: (u16, u16) = (term_width, rows);
    if cells.0 == 0 || cells.1 == 0 {
        return Some(CellGrid::empty(cells.0 as u32, cells.1 as u32));
    }
    let grid = pixel_grid(cells);
    match map(image, info, cells) {
        Some(resampled) => {
            proof {
                lemma_composite_drawn_from(
                    resampled@,
                    map_source(image@, *old(info), cells),
                    grid,
                );
            }
            Some(composite(&resampled, grid))
        },
        None => None,
    }
}

/// Rendering is idempotent: a render of a view whose centre is placed
/// changes nothing that a second render with the same image and terminal
/// depends on. The second render leaves the view state as the first left it
/// and gives the same cells, and the same resampled buffer, as the first.
pub proof fn lemma_render_is_idempotent(image: RasterView, info: DisplayInfo, term_width: u16, term_height: u16)
    requires
        image.wf(),
        info.is_initialized(),
    ensures
        ({
            let cells = viewport_cells(term_width, term_height);
            let img = (image.width, image.height);
            let once = mapped_info(img, info, cells);
            &&& mapped_info(img, once, cells) == once
            &&& map_spec(image, once, cells) == map_spec(image, info, cells)
            &&& display_spec(image, once, term_width, term_height) == display_spec(
                image,
                info,
                term_width,
                term_height,
            )
        }),
{
}

/// The first render shows the whole image: once it has placed the centre
/// in the middle, the crop rectangle of the next render at the smallest
/// magnification is the whole image again.
pub proof fn lemma_first_view_is_whole_image(img: (u32, u32), info: DisplayInfo, cells: (u16, u16))
    requires
        img.0 >= 1,
        img.1 >= 1,
        cells.0 >= 1,
        cells.1 >= 1,
        !info.is_initialized(),
        info.magnify <= MIN_MAGNIFY,
    ensures
        ({
            let first = mapped_info(img, info, cells);
            let clip = clip_size_spec(img, cells, first.magnify);
            &&& first.is_initialized()
            &&& first.clip_size == ((img.0 * UNIT) as i64, (img.1 * UNIT) as i64)
            &&& crop_rect_spec(img, first.center, clip) == (CropRect {
                x: 0,
                y: 0,
                width: img.0,
                height: img.1,
            })
        }),
{
    let first = mapped_info(img, info, cells);
    lemma_fit_covers_image(img, cells);
    assert(first.center.0 == (img.0 * 1000) / 2);
    assert(first.center.1 == (img.1 * 1000) / 2);
}

/// Rendering a fresh view twice shows the same: at the smallest
/// magnification, the render that follows the first gives the cells that the
/// first gave.
pub proof fn lemma_second_render_repeats_first(image: RasterView, info: DisplayInfo, term_width: u16, term_height: u16)
    requires
        image.wf(),
        !info.is_initialized(),
        info.magnify <= MIN_MAGNIFY,
    ensures
        ({
            let cells = viewport_cells(term_width, term_height);
            let first = mapped_info((image.width, image.height), info, cells);
            display_spec(image, first, term_width, term_height) == display_spec(
                image,
                info,
                term_width,
                term_height,
            )
        }),
{
    let cells = viewport_cells(term_width, term_height);
    if cells.0 >= 1 && cells.1 >= 1 {
        lemma_first_view_is_whole_image((image.width, image.height), info, cells);
        lemma_whole_crop_is_identity(image);
    }
}

} // verus!
