//! Sobel edge detection: each pixel is reduced to a grey intensity, the
//! intensity field is convolved with the two 3x3 Sobel kernels, and the
//! gradient magnitude is compared against a threshold.
//!
//! Policies: intensity is the unweighted mean `(r + g + b) / 3`; the 3x3
//! window is clamped to the image bounds (samples outside the image use the
//! nearest in-bounds pixel, consistent with the blur's clamp-to-bounds
//! policy); the output is white (255) where the pixel is an edge and black
//! (0) elsewhere, with alpha forced opaque regardless of the input alpha.

use vstd::prelude::*;

use crate::pixel::{image_height, pixel_index, valid_geometry};

verus! {

/// A coordinate moved by `d` and clamped to the axis `[0, n)`.
pub open spec fn clamp_coord(p: int, d: int, n: int) -> int {
    if p + d < 0 {
        0
    } else if p + d > n - 1 {
        n - 1
    } else {
        p + d
    }
}

/// Grey intensity of the pixel at `(x, y)`: the unweighted mean of its red,
/// green and blue channels, rounded down.
pub open spec fn lum(s: Seq<u8>, width: u32, x: int, y: int) -> int {
    (s[pixel_index(width, x, y, 0)] + s[pixel_index(width, x, y, 1)] + s[pixel_index(
        width,
        x,
        y,
        2,
    )]) / 3
}

/// Intensity sampled at offset `(dx, dy)` from `(x, y)`, with the sample
/// position clamped to the image bounds.
pub open spec fn sample(s: Seq<u8>, width: u32, h: int, x: int, y: int, dx: int, dy: int) -> int {
    lum(s, width, clamp_coord(x, dx, width as int), clamp_coord(y, dy, h))
}

/// Horizontal Sobel response: the intensity field convolved with
/// `[[-1, 0, 1], [-2, 0, 2], [-1, 0, 1]]`.
pub open spec fn grad_x(s: Seq<u8>, width: u32, h: int, x: int, y: int) -> int {
    sample(s, width, h, x, y, 1, -1) + 2 * sample(s, width, h, x, y, 1, 0) + sample(
        s,
        width,
        h,
        x,
        y,
        1,
        1,
    ) - sample(s, width, h, x, y, -1, -1) - 2 * sample(s, width, h, x, y, -1, 0) - sample(
        s,
        width,
        h,
        x,
        y,
        -1,
        1,
    )
}

/// Vertical Sobel response: the intensity field convolved with
/// `[[-1, -2, -1], [0, 0, 0], [1, 2, 1]]`.
pub open spec fn grad_y(s: Seq<u8>, width: u32, h: int, x: int, y: int) -> int {
    sample(s, width, h, x, y, -1, 1) + 2 * sample(s, width, h, x, y, 0, 1) + sample(
        s,
        width,
        h,
        x,
        y,
        1,
        1,
    ) - sample(s, width, h, x, y, -1, -1) - 2 * sample(s, width, h, x, y, 0, -1) - sample(
        s,
        width,
        h,
        x,
        y,
        1,
        -1,
    )
}

/// Whether the gradient magnitude `sqrt(gx^2 + gy^2)`, clamped to `[0, 255]`,
/// reaches the threshold. Since the threshold is itself a byte, comparing the
/// squared magnitude against the squared threshold says exactly the same
/// without ever leaving the integers.
pub open spec fn is_edge(s: Seq<u8>, width: u32, h: int, x: int, y: int, t: u8) -> bool {
    grad_x(s, width, h, x, y) * grad_x(s, width, h, x, y) + grad_y(s, width, h, x, y) * grad_y(
        s,
        width,
        h,
        x,
        y,
    ) >= (t as int) * (t as int)
}

/// The whole buffer after edge detection: white where an edge was found,
/// black elsewhere, alpha forced opaque.
pub open spec fn sobel_seq(s: Seq<u8>, width: u32, t: u8) -> Seq<u8> {
    let h = image_height(s.len(), width) as int;
    Seq::new(
        s.len(),
        |i: int|
            if i % 4 == 3 {
                255u8
            } else if is_edge(s, width, h, (i / 4) % (width as int), (i / 4) / (width as int), t) {
                255u8
            } else {
                0u8
            },
    )
}

/// Intensity of the sample at offset `(dx, dy)` from `(x, y)`, clamped to the
/// image bounds.
fn sample_lum(img: &Vec<u8>, width: u32, h: usize, x: usize, y: usize, dx: i64, dy: i64) -> (l: u16)
    requires
        valid_geometry(img@.len(), width),
        width > 0,
        h as nat == image_height(img@.len(), width),
        (x as int) < width as int,
        (y as int) < h as int,
        -1 <= dx <= 1,
        -1 <= dy <= 1,
    ensures
        l as int == sample(img@, width, h as int, x as int, y as int, dx as int, dy as int),
        l <= 255,
{
    let w = width as usize;
    let sx = if dx < 0 {
        if x == 0 {
            0
        } else {
            x - 1
        }
    } else if dx > 0 {
        if x + 1 >= w {
            w - 1
        } else {
            x + 1
        }
    } else {
        x
    };
    let sy = if dy < 0 {
        if y == 0 {
            0
        } else {
            y - 1
        }
    } else if dy > 0 {
        if y + 1 >= h {
            h - 1
        } else {
            y + 1
        }
    } else {
        y
    };
    let n = img.len();
    proof {
        assert(w as int == width as int);
        assert(sx as int == clamp_coord(x as int, dx as int, width as int));
        assert(sy as int == clamp_coord(y as int, dy as int, h as int));
        crate::pixel::lemma_pixel_index_in_bounds(img@.len(), width, sx as int, sy as int);
        assert(((sy as int) * (width as int) + (sx as int)) * 4 + 4 <= n as int);
    }
    let base = (sy * w + sx) * 4;
    let a = img[base] as u16;
    let b = img[base + 1] as u16;
    let c = img[base + 2] as u16;
    (a + b + c) / 3
}

/// Whether the pixel at `(x, y)` is an edge under the given threshold.
fn sobel_pixel(img: &Vec<u8>, width: u32, h: usize, x: usize, y: usize, threshold: u8) -> (e: bool)
    requires
        valid_geometry(img@.len(), width),
        width > 0,
        h as nat == image_height(img@.len(), width),
        (x as int) < width as int,
        (y as int) < h as int,
    ensures
        e == is_edge(img@, width, h as int, x as int, y as int, threshold),
{
    let ul = sample_lum(img, width, h, x, y, -1, -1) as i64;
    let um = sample_lum(img, width, h, x, y, 0, -1) as i64;
    let ur = sample_lum(img, width, h, x, y, 1, -1) as i64;
    let ml = sample_lum(img, width, h, x, y, -1, 0) as i64;
    let mr = sample_lum(img, width, h, x, y, 1, 0) as i64;
    let ll = sample_lum(img, width, h, x, y, -1, 1) as i64;
    let lm = sample_lum(img, width, h, x, y, 0, 1) as i64;
    let lr = sample_lum(img, width, h, x, y, 1, 1) as i64;
    let gx = ur + 2 * mr + lr - ul - 2 * ml - ll;
    let gy = ll + 2 * lm + lr - ul - 2 * um - ur;
    proof {
        assert(0 <= gx * gx <= 1020 * 1020 && 0 <= gy * gy <= 1020 * 1020) by (nonlinear_arith)
            requires
                -1020 <= gx <= 1020,
                -1020 <= gy <= 1020,
        ;
    }
    let m2 = gx * gx + gy * gy;
    proof {
        assert(0 <= (threshold as i64) * (threshold as i64) <= 255 * 255) by (nonlinear_arith)
            requires
                0 <= threshold as i64 <= 255,
        ;
    }
    let t2 = (threshold as i64) * (threshold as i64);
    m2 >= t2
}

/// Marks every pixel whose gradient magnitude reaches the threshold white and
/// every other pixel black; alpha is forced opaque.
#[verifier::loop_isolation(false)]
#[verifier::rlimit(60)]
pub fn sobel_edge_detection(input_image: Vec<u8>, width: u32, threshold: u8) -> (r: Vec<u8>)
    requires
        valid_geometry(input_image@.len(), width),
    ensures
        r@ == sobel_seq(input_image@, width, threshold),
{
    let ghost s = input_image@;
    if width == 0 {
        proof {
            assert(input_image@ =~= sobel_seq(s, width, threshold));
        }
        return input_image;
    }
    let w = width as usize;
    let len = input_image.len();
    let h = len / 4 / w;
    let ghost wi = w as int;
    let ghost hi = h as int;
    proof {
        assert(wi == width as int);
        vstd::arithmetic::div_mod::lemma_div_denominator(len as int, 4, wi);
        vstd::arithmetic::div_mod::lemma_fundamental_div_mod(len as int, wi * 4);
        assert(h as nat == image_height(s.len(), width));
        assert(len as int == (wi * 4) * hi);
        assert(len as int == 4 * (wi * hi)) by (nonlinear_arith)
            requires
                len as int == (wi * 4) * hi,
        ;
    }
    let mut out: Vec<u8> = Vec::new();
    let mut y: usize = 0;
    while y < h
        invariant
            y <= h,
            out@.len() == (y as int) * wi * 4,
            forall|j: int| 0 <= j < out@.len() ==> out@[j] == sobel_seq(s, width, threshold)[j],
        decreases h - y,
    {
        let mut x: usize = 0;
        while x < w
            invariant
                y < h,
                x <= w,
                out@.len() == ((y as int) * wi + x as int) * 4,
                forall|j: int| 0 <= j < out@.len() ==> out@[j] == sobel_seq(s, width, threshold)[j],
            decreases w - x,
        {
            proof {
                assert((y as int) * wi + (x as int) < wi * hi) by (nonlinear_arith)
                    requires
                        0 <= (x as int) < wi,
                        0 <= (y as int) < hi,
                ;
            }
            let e = sobel_pixel(&input_image, width, h, x, y, threshold);
            let val: u8 = if e {
                255
            } else {
                0
            };
            let mut c: usize = 0;
            while c < 4
                invariant
                    c <= 4,
                    out@.len() == ((y as int) * wi + x as int) * 4 + c as int,
                    forall|j: int|
                        0 <= j < out@.len() ==> out@[j] == sobel_seq(s, width, threshold)[j],
                decreases 4 - c,
            {
                let byte: u8 = if c == 3 {
                    255
                } else {
                    val
                };
                proof {
                    let i = ((y as int) * wi + x as int) * 4 + c as int;
                    crate::blur::lemma_pixel_decode(width, x as int, y as int, c as int);
                    assert(i == pixel_index(width, x as int, y as int, c as int));
                    assert(sobel_seq(s, width, threshold)[i] == byte);
                }
                out.push(byte);
                c += 1;
            }
            x += 1;
        }
        proof {
            assert(((y as int) * wi + wi) * 4 == (((y as int) + 1) * wi) * 4) by (nonlinear_arith);
        }
        y += 1;
    }
    proof {
        assert(((h as int) * wi) * 4 == 4 * (wi * hi)) by (nonlinear_arith)
            requires
                hi == h as int,
        ;
        assert(out@ =~= sobel_seq(s, width, threshold));
    }
    out
}

/// Raising the threshold never turns a non-edge pixel into an edge pixel: the
/// set of white output pixels only shrinks as the threshold grows.
pub proof fn lemma_sobel_threshold_monotone(s: Seq<u8>, width: u32, t1: u8, t2: u8)
    requires
        t1 <= t2,
    ensures
        forall|i: int|
            0 <= i < s.len() && #[trigger] sobel_seq(s, width, t2)[i] == 255 ==> sobel_seq(
                s,
                width,
                t1,
            )[i] == 255,
{
    let h = image_height(s.len(), width) as int;
    assert forall|i: int|
        0 <= i < s.len() && #[trigger] sobel_seq(s, width, t2)[i] == 255 implies sobel_seq(
        s,
        width,
        t1,
    )[i] == 255 by {
        if i % 4 != 3 {
            let x = (i / 4) % (width as int);
            let y = (i / 4) / (width as int);
            assert((t1 as int) * (t1 as int) <= (t2 as int) * (t2 as int)) by (nonlinear_arith)
                requires
                    0 <= t1 as int <= t2 as int,
            ;
            assert(is_edge(s, width, h, x, y, t2));
            assert(is_edge(s, width, h, x, y, t1));
        }
    }
}

} // verus!
