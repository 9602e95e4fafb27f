use image_in_terminal::color::Rgba;
use image_in_terminal::raster::{can_resample, Raster};

#[test]
fn raster_new_accepts_four_bytes_per_pixel() {
    let r = Raster::new(2, 1, vec![1, 2, 3, 4, 5, 6, 7, 8]).unwrap();
    assert_eq!(r.width(), 2);
    assert_eq!(r.height(), 1);
    assert_eq!(r.pixel(0, 0), Rgba { r: 1, g: 2, b: 3, a: 4 });
    assert_eq!(r.pixel(1, 0), Rgba { r: 5, g: 6, b: 7, a: 8 });
}

#[test]
fn raster_new_rejects_wrong_length() {
    assert!(Raster::new(2, 1, vec![0; 7]).is_none());
    assert!(Raster::new(2, 1, vec![0; 9]).is_none());
    assert!(Raster::new(2, 2, vec![0; 8]).is_none());
}

#[test]
fn raster_new_rejects_empty_image() {
    assert!(Raster::new(0, 0, vec![]).is_none());
    assert!(Raster::new(0, 3, vec![]).is_none());
    assert!(Raster::new(3, 0, vec![]).is_none());
}

#[test]
fn raster_pixel_reads_rows_top_to_bottom() {
    let mut data = Vec::new();
    for y in 0..3u8 {
        for x in 0..2u8 {
            data.extend_from_slice(&[x, y, x + y, 255]);
        }
    }
    let r = Raster::new(2, 3, data).unwrap();
    for y in 0..3u32 {
        for x in 0..2u32 {
            assert_eq!(r.pixel(x, y), Rgba { r: x as u8, g: y as u8, b: (x + y) as u8, a: 255 });
        }
    }
}

#[test]
fn can_resample_small_buffers() {
    assert!(can_resample(100, 40, 40));
    assert!(can_resample(1, 1, 1));
}

#[test]
fn can_resample_refuses_what_no_vector_holds() {
    // 16 * (2^32 - 1)^2 bytes is beyond any address space.
    assert!(!can_resample(u32::MAX, 1, u32::MAX));
    assert!(!can_resample(1, u32::MAX, u32::MAX));
}
