use image_in_terminal::color::{Rgb, Rgba};
use image_in_terminal::compositor::{composite, Cell, CellGrid};
use image_in_terminal::display::{display, DisplayInfo};
use image_in_terminal::raster::Raster;

const RED: Rgb = Rgb { r: 255, g: 0, b: 0 };
const BLACK: Rgb = Rgb { r: 0, g: 0, b: 0 };

fn uniform(width: u32, height: u32, color: [u8; 4]) -> Raster {
    let mut data = Vec::new();
    for _ in 0..(width * height) {
        data.extend_from_slice(&color);
    }
    Raster::new(width, height, data).unwrap()
}

/// Pixel `(x, y)` is `(10x, 10y, x + y, 255)`.
fn gradient(width: u32, height: u32) -> Raster {
    let mut data = Vec::new();
    for y in 0..height {
        for x in 0..width {
            data.extend_from_slice(&[(10 * x) as u8, (10 * y) as u8, (x + y) as u8, 255]);
        }
    }
    Raster::new(width, height, data).unwrap()
}

fn gradient_color(x: u32, y: u32) -> Rgb {
    Rgb { r: (10 * x) as u8, g: (10 * y) as u8, b: (x + y) as u8 }
}

fn fresh() -> DisplayInfo {
    DisplayInfo::new(String::from("sample.png"))
}

fn all_cells(grid: &CellGrid) -> Vec<Cell> {
    let mut cells = Vec::new();
    for y in 0..grid.rows() {
        for x in 0..grid.cols() {
            cells.push(grid.cell(x, y));
        }
    }
    cells
}

#[test]
fn new_info_is_uninitialized() {
    let info = fresh();
    assert_eq!(info.image_file_path, "sample.png");
    assert_eq!(info.magnify, 1000);
    assert_eq!(info.center, (-1000, -1000));
    assert_eq!(info.clip_size, (-1000, -1000));
    assert_eq!(info.img_size, (0, 0));
    assert!(!info.show_help);
}

#[test]
fn red_image_fills_square_viewport() {
    let image = uniform(100, 100, [255, 0, 0, 255]);
    let mut info = fresh();
    let resampled = image_in_terminal::display::map(&image, &mut info, (40, 20)).unwrap();
    assert_eq!((resampled.width(), resampled.height()), (40, 40));
    assert_eq!(info.center, (50_000, 50_000));
    assert_eq!(info.clip_size, (100_000, 100_000));
    assert_eq!(info.img_size, (100, 100));

    let mut info = fresh();
    let grid = display(&image, &mut info, 40, 21).unwrap();
    assert_eq!((grid.cols(), grid.rows()), (40, 20));
    for cell in all_cells(&grid) {
        assert_eq!(cell, Cell { fg: RED, bg: RED });
    }
    assert_eq!(info.center, (50_000, 50_000));
    assert_eq!(info.clip_size, (100_000, 100_000));
}

#[test]
fn display_twice_gives_identical_cells() {
    let image = gradient(20, 12);
    let mut info = fresh();
    display(&image, &mut info, 30, 9).unwrap();
    info.magnify = 1700;
    info.center = (9_250, 5_500);
    let first = display(&image, &mut info, 30, 9).unwrap();
    let after_first = info.clone();
    let second = display(&image, &mut info, 30, 9).unwrap();
    assert_eq!(info, after_first);
    assert_eq!((first.cols(), first.rows()), (second.cols(), second.rows()));
    assert_eq!(all_cells(&first), all_cells(&second));
}

#[test]
fn second_render_of_default_view_shows_same_cells() {
    let image = gradient(20, 12);
    let mut info = fresh();
    let first = display(&image, &mut info, 30, 9).unwrap();
    let second = display(&image, &mut info, 30, 9).unwrap();
    assert_eq!(all_cells(&first), all_cells(&second));
    // 20 x 12 in a 30 x 16 grid is fitted by height: 12 high, 12 * 30 / 16 wide.
    assert_eq!(info.clip_size, (22_500, 12_000));
    assert_eq!(info.center, (10_000, 6_000));
}

#[test]
fn square_image_is_letterboxed_in_wide_viewport() {
    let image = uniform(100, 100, [255, 0, 0, 255]);
    let mut info = fresh();
    let resampled = image_in_terminal::display::map(&image, &mut info, (40, 10)).unwrap();
    assert_eq!((resampled.width(), resampled.height()), (20, 20));
    let mut info = fresh();
    let grid = display(&image, &mut info, 40, 11).unwrap();
    assert_eq!((grid.cols(), grid.rows()), (40, 10));
    for y in 0..10 {
        for x in 0..40 {
            let expect = if (10..30).contains(&x) { RED } else { BLACK };
            assert_eq!(grid.cell(x, y), Cell { fg: expect, bg: expect }, "at {} {}", x, y);
        }
    }
}

#[test]
fn zoomed_view_shows_the_crop() {
    let image = gradient(4, 4);
    let mut info = fresh();
    image_in_terminal::display::map(&image, &mut info, (2, 1)).unwrap();
    assert_eq!(info.center, (2_000, 2_000));
    info.magnify = 2000;
    let resampled = image_in_terminal::display::map(&image, &mut info, (2, 1)).unwrap();
    assert_eq!(info.clip_size, (2_000, 2_000));
    assert_eq!((resampled.width(), resampled.height()), (2, 2));
    for y in 0..2 {
        for x in 0..2 {
            let p = resampled.pixel(x, y);
            assert_eq!(p, Rgba { r: (10 * (x + 1)) as u8, g: (10 * (y + 1)) as u8, b: (x + y + 2) as u8, a: 255 });
        }
    }
    let grid = display(&image, &mut info, 2, 2).unwrap();
    assert_eq!((grid.cols(), grid.rows()), (2, 1));
    assert_eq!(grid.cell(0, 0), Cell { fg: gradient_color(1, 1), bg: gradient_color(1, 2) });
    assert_eq!(grid.cell(1, 0), Cell { fg: gradient_color(2, 1), bg: gradient_color(2, 2) });
}

#[test]
fn resample_changes_size_of_uniform_image() {
    let image = uniform(3, 5, [9, 8, 7, 255]);
    let mut info = fresh();
    let resampled = image_in_terminal::display::map(&image, &mut info, (12, 10)).unwrap();
    assert_eq!((resampled.width(), resampled.height()), (12, 20));
    for y in 0..20 {
        for x in 0..12 {
            assert_eq!(resampled.pixel(x, y), Rgba { r: 9, g: 8, b: 7, a: 255 });
        }
    }
}

#[test]
fn map_without_cells_changes_nothing() {
    let image = uniform(10, 10, [1, 2, 3, 255]);
    let mut info = fresh();
    assert!(image_in_terminal::display::map(&image, &mut info, (0, 5)).is_none());
    assert_eq!(info, fresh());
    assert!(image_in_terminal::display::map(&image, &mut info, (5, 0)).is_none());
    assert_eq!(info, fresh());
}

#[test]
fn display_without_room_gives_no_cells() {
    let image = uniform(10, 10, [1, 2, 3, 255]);
    let mut info = fresh();
    let grid = display(&image, &mut info, 80, 1).unwrap();
    assert_eq!((grid.cols(), grid.rows()), (80, 0));
    let grid = display(&image, &mut info, 80, 0).unwrap();
    assert_eq!((grid.cols(), grid.rows()), (80, 0));
    let grid = display(&image, &mut info, 0, 24).unwrap();
    assert_eq!((grid.cols(), grid.rows()), (0, 23));
    assert_eq!(info, fresh());
}

#[test]
fn map_survives_out_of_range_view() {
    let image = gradient(8, 8);
    let mut info = fresh();
    info.center = (i64::MAX, 0);
    info.magnify = u32::MAX;
    let resampled = image_in_terminal::display::map(&image, &mut info, (4, 2)).unwrap();
    assert!(resampled.width() <= 4 && resampled.height() <= 4);
    assert_eq!(info.clip_size, (0, 0));
    // the crop is the single pixel at the far end of the first row
    assert_eq!(resampled.pixel(0, 0), Rgba { r: 70, g: 0, b: 7, a: 255 });
}

#[test]
fn composite_centres_image_with_remainder_at_far_side() {
    // 2 x 1 image in a 5 x 4 grid: anchor (1, 1)
    let image = Raster::new(2, 1, vec![255, 0, 0, 255, 0, 255, 0, 255]).unwrap();
    let grid = composite(&image, (5, 4));
    assert_eq!((grid.cols(), grid.rows()), (5, 2));
    let green = Rgb { r: 0, g: 255, b: 0 };
    for x in 0..5 {
        let bg = match x {
            1 => RED,
            2 => green,
            _ => BLACK,
        };
        assert_eq!(grid.cell(x, 0), Cell { fg: BLACK, bg });
        assert_eq!(grid.cell(x, 1), Cell { fg: BLACK, bg: BLACK });
    }
}

#[test]
fn composite_shows_checkerboard_through_transparent_pixels() {
    let image = uniform(2, 2, [255, 255, 255, 0]);
    let grid = composite(&image, (2, 2));
    let light = Rgb { r: 153, g: 153, b: 153 };
    let dark = Rgb { r: 102, g: 102, b: 102 };
    assert_eq!(grid.cell(0, 0), Cell { fg: light, bg: dark });
    assert_eq!(grid.cell(1, 0), Cell { fg: dark, bg: light });
}

#[test]
fn composite_blends_translucent_pixels_with_checkerboard() {
    let image = uniform(1, 2, [255, 0, 0, 128]);
    let grid = composite(&image, (1, 2));
    // over 153: (255 * 128 + 153 * 127) / 255 = 204.2, 153 * 127 / 255 = 76.2
    // over 102: (255 * 128 + 102 * 127) / 255 = 178.8, 102 * 127 / 255 = 50.8
    assert_eq!(
        grid.cell(0, 0),
        Cell { fg: Rgb { r: 204, g: 76, b: 76 }, bg: Rgb { r: 178, g: 50, b: 50 } }
    );
}

#[test]
fn composite_drops_odd_last_pixel_row() {
    let image = uniform(1, 3, [255, 0, 0, 255]);
    let grid = composite(&image, (1, 3));
    assert_eq!((grid.cols(), grid.rows()), (1, 1));
    assert_eq!(grid.cell(0, 0), Cell { fg: RED, bg: RED });
}

#[test]
fn resample_picks_nearest_pixels() {
    // red beside blue, doubled: every pixel is one of the two, unmixed
    let image = Raster::new(2, 1, vec![255, 0, 0, 255, 0, 0, 255, 255]).unwrap();
    let mut info = fresh();
    let resampled = image_in_terminal::display::map(&image, &mut info, (4, 1)).unwrap();
    assert_eq!((resampled.width(), resampled.height()), (4, 2));
    for y in 0..2 {
        for x in 0..4 {
            let expect = if x < 2 {
                Rgba { r: 255, g: 0, b: 0, a: 255 }
            } else {
                Rgba { r: 0, g: 0, b: 255, a: 255 }
            };
            assert_eq!(resampled.pixel(x, y), expect);
        }
    }
}

#[test]
fn resampled_buffer_fits_grid_and_spans_one_side() {
    for &(w, h, cells) in &[
        (100u32, 100u32, (40u16, 10u16)),
        (7, 300, (80, 24)),
        (300, 7, (80, 24)),
        (1, 1, (3, 5)),
        (64, 48, (64, 24)),
    ] {
        let image = uniform(w, h, [1, 2, 3, 255]);
        let mut info = fresh();
        let r = image_in_terminal::display::map(&image, &mut info, cells).unwrap();
        let (gw, gh) = (cells.0 as u32, 2 * cells.1 as u32);
        assert!(r.width() >= 1 && r.height() >= 1);
        assert!(r.width() <= gw && r.height() <= gh);
        assert!(r.width() == gw || r.height() == gh);
    }
}
