use image_in_terminal::color::{blend, Rgb, Rgba};

fn rgba(r: u8, g: u8, b: u8, a: u8) -> Rgba {
    Rgba { r, g, b, a }
}

#[test]
fn blend_half_red_over_gray() {
    // 255 * 128/255 + 100 * 127/255 = 177.8, 100 * 127/255 = 49.8
    let out = blend(rgba(255, 0, 0, 128), rgba(100, 100, 100, 255));
    assert_eq!(out, Rgb { r: 177, g: 49, b: 49 });
}

#[test]
fn blend_over_untouched_backdrop_is_black() {
    assert_eq!(blend(rgba(255, 0, 0, 255), rgba(153, 153, 153, 0)), Rgb { r: 0, g: 0, b: 0 });
    assert_eq!(blend(rgba(12, 34, 56, 78), rgba(102, 102, 102, 0)), Rgb { r: 0, g: 0, b: 0 });
    assert_eq!(blend(rgba(0, 0, 0, 0), rgba(255, 255, 255, 0)), Rgb { r: 0, g: 0, b: 0 });
}

#[test]
fn blend_opaque_pixel_hides_backdrop() {
    assert_eq!(blend(rgba(1, 2, 3, 255), rgba(153, 153, 153, 255)), Rgb { r: 1, g: 2, b: 3 });
}

#[test]
fn blend_transparent_pixel_shows_backdrop() {
    assert_eq!(blend(rgba(200, 200, 200, 0), rgba(102, 102, 102, 255)), Rgb { r: 102, g: 102, b: 102 });
}

#[test]
fn blend_rounds_down() {
    // (10 * 1 + 20 * 254) / 255 = 5090 / 255 = 19.96
    assert_eq!(blend(rgba(10, 10, 10, 1), rgba(20, 20, 20, 255)).r, 19);
    // (3 * 5 + 3 * 250) / 255 = 3 exactly
    assert_eq!(blend(rgba(3, 3, 3, 5), rgba(3, 3, 3, 255)), Rgb { r: 3, g: 3, b: 3 });
}

#[test]
fn blend_ignores_backdrop_alpha_beyond_zero() {
    let a = blend(rgba(40, 80, 120, 100), rgba(153, 153, 153, 1));
    let b = blend(rgba(40, 80, 120, 100), rgba(153, 153, 153, 255));
    assert_eq!(a, b);
}

#[test]
fn blend_tracks_floating_point_formula() {
    // In 64-bit floating point the same formula gives the same channel, or one
    // less where the exact value is a whole number that the rounding misses.
    for a in 0..=255u32 {
        let alpha = a as f64 / 255.0;
        for p in (0..=255u32).step_by(3) {
            for b in (0..=255u32).step_by(5) {
                let out = blend(rgba(p as u8, 0, 0, a as u8), rgba(b as u8, 0, 0, 255)).r as u32;
                let float = (p as f64 * alpha + b as f64 * (1.0 - alpha)) as u32;
                assert!(float <= out && out <= float + 1, "{} {} {}", a, p, b);
                if out != float {
                    assert_eq!((p * a + b * (255 - a)) % 255, 0);
                }
            }
        }
    }
}
