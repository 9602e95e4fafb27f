//! Colours and the alpha blend that resolves one image pixel against the
//! backdrop beneath it.

use vstd::prelude::*;

verus! {

/// A pixel with 8-bit red, green, blue and alpha channels.
#[derive(Clone, Copy, Debug, PartialEq, Eq, Structural)]
pub struct Rgba {
    pub r: u8,
    pub g: u8,
    pub b: u8,
    pub a: u8,
}

/// An opaque colour, as a terminal cell shows it.
#[derive(Clone, Copy, Debug, PartialEq, Eq, Structural)]
pub struct Rgb {
    pub r: u8,
    pub g: u8,
    pub b: u8,
}

/// One channel of `fg` laid over `bg` with coverage `alpha / 255`:
/// `fg * alpha / 255 + bg * (1 - alpha / 255)`, rounded down.
pub open spec fn mix_channel(fg: u8, bg: u8, alpha: u8) -> int {
    (fg * alpha + bg * (255 - alpha)) / 255
}

/// The colour shown for `pixel` over the backdrop pixel `bg`.
pub open spec fn blend_spec(pixel: Rgba, bg: Rgba) -> Rgb {
    if bg.a == 0 {
        Rgb { r: 0, g: 0, b: 0 }
    } else {
        Rgb {
            r: mix_channel(pixel.r, bg.r, pixel.a) as u8,
            g: mix_channel(pixel.g, bg.g, pixel.a) as u8,
            b: mix_channel(pixel.b, bg.b, pixel.a) as u8,
        }
    }
}

/// An opaque pixel hides the backdrop beneath it, a fully transparent one
/// shows it, and a channel that pixel and backdrop share keeps its value at
/// every coverage.
pub proof fn lemma_mix_extremes(fg: u8, bg: u8, alpha: u8)
    ensures
        mix_channel(fg, bg, 255) == fg,
        mix_channel(fg, bg, 0) == bg,
        mix_channel(fg, fg, alpha) == fg,
        fg <= bg ==> fg <= mix_channel(fg, bg, alpha) <= bg,
        bg <= fg ==> bg <= mix_channel(fg, bg, alpha) <= fg,
{
    assert(fg * alpha + fg * (255 - alpha) == fg * 255) by (nonlinear_arith);
    let sum = fg * alpha + bg * (255 - alpha);
    if fg <= bg {
        assert(fg * 255 <= sum <= bg * 255) by (nonlinear_arith)
            requires
                sum == fg * alpha + bg * (255 - alpha),
                0 <= fg <= bg,
                0 <= alpha <= 255,
        ;
    } else {
        assert(bg * 255 <= sum <= fg * 255) by (nonlinear_arith)
            requires
                sum == fg * alpha + bg * (255 - alpha),
                0 <= bg <= fg,
                0 <= alpha <= 255,
        ;
    }
}

/// One channel of the blend.
fn mix(fg: u8, bg: u8, alpha: u8) -> (out: u8)
    ensures
        out == mix_channel(fg, bg, alpha),
{
    let f: u32 = fg as u32;
    let b: u32 = bg as u32;
    let a: u32 = alpha as u32;
    assert(f * a <= 255 * 255) by (nonlinear_arith)
        requires f <= 255, a <= 255;
    assert(b * (255 - a) <= 255 * 255) by (nonlinear_arith)
        requires b <= 255, a <= 255;
    assert(f * a + b * (255 - a) <= 255 * 255) by (nonlinear_arith)
        requires f <= 255, b <= 255, a <= 255;
    let sum: u32 = f * a + b * (255 - a);
    (sum / 255) as u8
}

/// Resolves `pixel` against the backdrop pixel `bg` beneath it. Over a
/// backdrop that no image pixel has touched (alpha zero) the result is black,
/// whatever the pixel; over any other, each colour channel is the pixel's
/// and the backdrop's mixed by the pixel's alpha.
pub fn blend(pixel: Rgba, bg: Rgba) -> (out: Rgb)
    ensures
        out == blend_spec(pixel, bg),
        bg.a == 0 ==> out == (Rgb { r: 0, g: 0, b: 0 }),
{
    if bg.a == 0 {
        Rgb { r: 0, g: 0, b: 0 }
    } else {
        Rgb {
            r: mix(pixel.r, bg.r, pixel.a),
            g: mix(pixel.g, bg.g, pixel.a),
            b: mix(pixel.b, bg.b, pixel.a),
        }
    }
}

} // verus!
