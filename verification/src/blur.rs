//! Box blur: every output channel is the unweighted mean of that channel over
//! an odd-sized square window centred on the pixel.
//!
//! Border policy: the window is clamped to the image bounds, so pixels near an
//! edge or corner average only the in-bounds samples and the averaging
//! denominator shrinks accordingly — the window is never wrapped or padded
//! with zeros. Alpha is averaged like the colour channels. An even kernel
//! size is coerced to the next-lower odd value and 0 is floored to 1.

use vstd::prelude::*;

use crate::pixel::{image_height, pixel_index, valid_geometry};

verus! {

/// The kernel size the blur actually uses: odd and at least 1. Even sizes
/// fall to the next-lower odd value; 0 is floored to 1.
pub open spec fn spec_normalize_kernel(k: u32) -> u32 {
    if k == 0 {
        1u32
    } else if k % 2 == 0 {
        (k - 1) as u32
    } else {
        k
    }
}

pub fn normalize_kernel(k: u32) -> (r: u32)
    ensures
        r == spec_normalize_kernel(k),
        r >= 1,
        r % 2 == 1,
{
    if k == 0 {
        1
    } else if k % 2 == 0 {
        k - 1
    } else {
        k
    }
}

/// Lower edge of a window of radius `r` centred at `p`, clamped to 0.
pub open spec fn win_lo(p: int, r: int) -> int {
    if p - r >= 0 {
        p - r
    } else {
        0
    }
}

/// Upper edge (inclusive) of a window of radius `r` centred at `p`, clamped
/// to the last valid coordinate of an axis of length `n`.
pub open spec fn win_hi(p: int, r: int, n: int) -> int {
    if p + r <= n - 1 {
        p + r
    } else {
        n - 1
    }
}

/// Sum of channel `c` over the pixels `(x, y)` with `x0 <= x < x1` of row `y`.
pub open spec fn row_sum(s: Seq<u8>, width: u32, y: int, x0: int, x1: int, c: int) -> int
    decreases x1 - x0,
{
    if x1 <= x0 {
        0
    } else {
        row_sum(s, width, y, x0, x1 - 1, c) + s[pixel_index(width, x1 - 1, y, c)]
    }
}

/// Sum of channel `c` over the rectangle `[x0, x1) x [y0, y1)`.
pub open spec fn win_sum(s: Seq<u8>, width: u32, x0: int, x1: int, y0: int, y1: int, c: int) -> int
    decreases y1 - y0,
{
    if y1 <= y0 {
        0
    } else {
        win_sum(s, width, x0, x1, y0, y1 - 1, c) + row_sum(s, width, y1 - 1, x0, x1, c)
    }
}

/// The blurred value of channel `c` of the pixel at `(x, y)`: the mean of the
/// channel over the clamped window, rounded down.
pub open spec fn blur_at(s: Seq<u8>, width: u32, k: u32, x: int, y: int, c: int) -> u8 {
    let h = image_height(s.len(), width) as int;
    let r = (k - 1) / 2;
    let x0 = win_lo(x, r);
    let x1 = win_hi(x, r, width as int);
    let y0 = win_lo(y, r);
    let y1 = win_hi(y, r, h);
    let cnt = (x1 - x0 + 1) * (y1 - y0 + 1);
    (win_sum(s, width, x0, x1 + 1, y0, y1 + 1, c) / cnt) as u8
}

/// The whole buffer after a box blur with (already normalized) kernel size
/// `k`.
pub open spec fn blur_seq(s: Seq<u8>, width: u32, k: u32) -> Seq<u8> {
    Seq::new(
        s.len(),
        |i: int|
            blur_at(s, width, k, (i / 4) % (width as int), (i / 4) / (width as int), i % 4),
    )
}

/// A sum of channel bytes over a row segment lies between 0 and 255 per
/// sample.
pub proof fn lemma_row_sum_bounds(s: Seq<u8>, width: u32, y: int, x0: int, x1: int, c: int)
    requires
        x0 <= x1,
    ensures
        0 <= row_sum(s, width, y, x0, x1, c) <= 255 * (x1 - x0),
    decreases x1 - x0,
{
    if x1 > x0 {
        lemma_row_sum_bounds(s, width, y, x0, x1 - 1, c);
    }
}

/// A sum of channel bytes over a rectangle lies between 0 and 255 per sample.
pub proof fn lemma_win_sum_bounds(
    s: Seq<u8>,
    width: u32,
    x0: int,
    x1: int,
    y0: int,
    y1: int,
    c: int,
)
    requires
        x0 <= x1,
        y0 <= y1,
    ensures
        0 <= win_sum(s, width, x0, x1, y0, y1, c) <= 255 * ((x1 - x0) * (y1 - y0)),
    decreases y1 - y0,
{
    if y1 > y0 {
        lemma_win_sum_bounds(s, width, x0, x1, y0, y1 - 1, c);
        lemma_row_sum_bounds(s, width, y1 - 1, x0, x1, c);
        assert(255 * ((x1 - x0) * (y1 - y0 - 1)) + 255 * (x1 - x0) == 255 * ((x1 - x0) * (y1
            - y0))) by (nonlinear_arith);
    }
}

/// Over a row segment whose channel-`c` bytes all equal `v`, the sum is
/// `v` times the sample count.
pub proof fn lemma_row_sum_const(
    s: Seq<u8>,
    width: u32,
    y: int,
    x0: int,
    x1: int,
    c: int,
    v: u8,
)
    requires
        x0 <= x1,
        forall|xx: int| x0 <= xx < x1 ==> #[trigger] s[pixel_index(width, xx, y, c)] == v,
    ensures
        row_sum(s, width, y, x0, x1, c) == (v as int) * (x1 - x0),
    decreases x1 - x0,
{
    if x1 > x0 {
        lemma_row_sum_const(s, width, y, x0, x1 - 1, c, v);
        assert(s[pixel_index(width, x1 - 1, y, c)] == v);
        assert((v as int) * (x1 - 1 - x0) + (v as int) == (v as int) * (x1 - x0))
            by (nonlinear_arith);
    } else {
        assert((v as int) * (x1 - x0) == 0) by (nonlinear_arith)
            requires
                x1 == x0,
        ;
    }
}

/// Over a rectangle whose channel-`c` bytes all equal `v`, the sum is `v`
/// times the sample count.
pub proof fn lemma_win_sum_const(
    s: Seq<u8>,
    width: u32,
    x0: int,
    x1: int,
    y0: int,
    y1: int,
    c: int,
    v: u8,
)
    requires
        x0 <= x1,
        y0 <= y1,
        forall|xx: int, yy: int|
            x0 <= xx < x1 && y0 <= yy < y1 ==> #[trigger] s[pixel_index(width, xx, yy, c)] == v,
    ensures
        win_sum(s, width, x0, x1, y0, y1, c) == (v as int) * ((x1 - x0) * (y1 - y0)),
    decreases y1 - y0,
{
    if y1 > y0 {
        lemma_win_sum_const(s, width, x0, x1, y0, y1 - 1, c, v);
        lemma_row_sum_const(s, width, y1 - 1, x0, x1, c, v);
        assert((v as int) * ((x1 - x0) * (y1 - y0 - 1)) + (v as int) * (x1 - x0) == (v as int) * ((
        x1 - x0) * (y1 - y0))) by (nonlinear_arith);
    } else {
        assert((v as int) * ((x1 - x0) * (y1 - y0)) == 0) by (nonlinear_arith)
            requires
                y1 == y0,
        ;
    }
}

/// Splits a channel byte position into its coordinates: the converse of
/// `pixel_index` for in-range coordinates.
pub proof fn lemma_pixel_decode(width: u32, x: int, y: int, c: int)
    requires
        0 < width,
        0 <= x < width as int,
        0 <= y,
        0 <= c < 4,
    ensures
        pixel_index(width, x, y, c) / 4 == y * (width as int) + x,
        pixel_index(width, x, y, c) % 4 == c,
        (y * (width as int) + x) % (width as int) == x,
        (y * (width as int) + x) / (width as int) == y,
{
    let w = width as int;
    vstd::arithmetic::div_mod::lemma_fundamental_div_mod_converse(
        (y * w + x) * 4 + c,
        4,
        y * w + x,
        c,
    );
    vstd::arithmetic::div_mod::lemma_fundamental_div_mod_converse(y * w + x, w, y, x);
}

/// A partial window sum (whole rows plus part of the next) never exceeds 255
/// per sample, and a window never holds more samples than two full axes of
/// 32-bit extent; together the running sum stays far below the accumulator's
/// capacity.
pub proof fn lemma_partial_sum_fits(
    s: Seq<u8>,
    width: u32,
    x0: int,
    x1: int,
    y0: int,
    yy: int,
    xx: int,
    c: int,
)
    requires
        x0 <= xx <= x1,
        y0 <= yy,
        x1 - x0 <= 0xFFFF_FFFF,
        yy - y0 <= 0x1_0000_0000,
    ensures
        0 <= win_sum(s, width, x0, x1, y0, yy, c) + row_sum(s, width, yy, x0, xx, c)
            < 0x1000_0000_0000_0000_0000_0000,
{
    lemma_win_sum_bounds(s, width, x0, x1, y0, yy, c);
    lemma_row_sum_bounds(s, width, yy, x0, xx, c);
    assert(255 * ((x1 - x0) * (yy - y0)) + 255 * (xx - x0) < 0x1000_0000_0000_0000_0000_0000)
        by (nonlinear_arith)
        requires
            0 <= x1 - x0 <= 0xFFFF_FFFF,
            0 <= yy - y0 <= 0x1_0000_0000,
            x0 <= xx <= x1,
    ;
}

/// Each output pixel's channels are the unweighted mean of all in-bounds
/// pixels in the square window of the normalized kernel size centred on it.
#[verifier::loop_isolation(false)]
#[verifier::rlimit(100)]
pub fn box_blur(input_image: Vec<u8>, width: u32, kernel_size: u32) -> (r: Vec<u8>)
    requires
        valid_geometry(input_image@.len(), width),
    ensures
        r@ == blur_seq(input_image@, width, spec_normalize_kernel(kernel_size)),
{
    let ghost s = input_image@;
    let k = normalize_kernel(kernel_size);
    if width == 0 {
        proof {
            assert(input_image@ =~= blur_seq(s, width, k));
        }
        return input_image;
    }
    let rad = (k - 1) / 2;
    let w = width as usize;
    let len = input_image.len();
    let h = len / 4 / w;
    let ghost wi = w as int;
    let ghost hi = h as int;
    proof {
        assert(wi == width as int);
        vstd::arithmetic::div_mod::lemma_div_denominator(len as int, 4, wi);
        vstd::arithmetic::div_mod::lemma_fundamental_div_mod(len as int, wi * 4);
        assert(h as nat == image_height(s.len(), width));
        assert(len as int == (wi * 4) * hi);
        assert(len as int == 4 * (wi * hi)) by (nonlinear_arith)
            requires
                len as int == (wi * 4) * hi,
        ;
        assert(h <= u32::MAX as usize);
    }
    let mut out: Vec<u8> = Vec::new();
    let mut y: usize = 0;
    while y < h
        invariant
            y <= h,
            out@.len() == (y as int) * wi * 4,
            forall|j: int| 0 <= j < out@.len() ==> out@[j] == blur_seq(s, width, k)[j],
        decreases h - y,
    {
        let mut x: usize = 0;
        while x < w
            invariant
                y < h,
                x <= w,
                out@.len() == ((y as int) * wi + x as int) * 4,
                forall|j: int| 0 <= j < out@.len() ==> out@[j] == blur_seq(s, width, k)[j],
            decreases w - x,
        {
            proof {
                assert((y as int) * wi + (x as int) < wi * hi) by (nonlinear_arith)
                    requires
                        0 <= (x as int) < wi,
                        0 <= (y as int) < hi,
                ;
            }
            let x0 = if x >= rad as usize {
                x - rad as usize
            } else {
                0
            };
            let x1 = {
                let cand: u64 = x as u64 + rad as u64;
                let last: u64 = (w - 1) as u64;
                if cand <= last {
                    cand as usize
                } else {
                    w - 1
                }
            };
            let y0 = if y >= rad as usize {
                y - rad as usize
            } else {
                0
            };
            let y1 = {
                let cand: u64 = y as u64 + rad as u64;
                let last: u64 = (h - 1) as u64;
                if cand <= last {
                    cand as usize
                } else {
                    h - 1
                }
            };
            proof {
                assert(x0 as int == win_lo(x as int, rad as int));
                assert(x1 as int == win_hi(x as int, rad as int, wi));
                assert(y0 as int == win_lo(y as int, rad as int));
                assert(y1 as int == win_hi(y as int, rad as int, hi));
                assert(x0 <= x <= x1);
                assert(y0 <= y <= y1);
            }
            proof {
                assert(((x1 - x0 + 1) as int) * ((y1 - y0 + 1) as int) <= 0xFFFF_FFFF
                    * 0xFFFF_FFFF) by (nonlinear_arith)
                    requires
                        0 <= (x0 as int) <= (x1 as int) < wi <= 0xFFFF_FFFF,
                        0 <= (y0 as int) <= (y1 as int) < hi <= 0xFFFF_FFFF,
                ;
            }
            let cnt: u64 = ((x1 - x0 + 1) as u64) * ((y1 - y0 + 1) as u64);
            proof {
                assert(cnt as int == (x1 as int - x0 as int + 1) * (y1 as int - y0 as int + 1));
                assert(cnt >= 1) by (nonlinear_arith)
                    requires
                        cnt as int == (x1 as int - x0 as int + 1) * (y1 as int - y0 as int + 1),
                        x0 <= x1,
                        y0 <= y1,
                ;
            }
            let mut c: usize = 0;
            while c < 4
                invariant
                    c <= 4,
                    out@.len() == ((y as int) * wi + x as int) * 4 + c as int,
                    forall|j: int| 0 <= j < out@.len() ==> out@[j] == blur_seq(s, width, k)[j],
                decreases 4 - c,
            {
                let mut sum: u128 = 0;
                let mut yy = y0;
                while yy <= y1
                    invariant
                        y0 <= yy <= y1 + 1,
                        sum as int == win_sum(
                            s,
                            width,
                            x0 as int,
                            x1 as int + 1,
                            y0 as int,
                            yy as int,
                            c as int,
                        ),
                    decreases y1 + 1 - yy,
                {
                    let mut xx = x0;
                    while xx <= x1
                        invariant
                            yy <= y1,
                            x0 <= xx <= x1 + 1,
                            sum as int == win_sum(
                                s,
                                width,
                                x0 as int,
                                x1 as int + 1,
                                y0 as int,
                                yy as int,
                                c as int,
                            ) + row_sum(s, width, yy as int, x0 as int, xx as int, c as int),
                        decreases x1 + 1 - xx,
                    {
                        proof {
                            assert((yy as int) * wi + (xx as int) < wi * hi) by (nonlinear_arith)
                                requires
                                    0 <= (xx as int) < wi,
                                    0 <= (yy as int) < hi,
                            ;
                            assert(0 <= (yy as int) * wi) by (nonlinear_arith)
                                requires
                                    0 <= yy as int,
                                    0 <= wi,
                            ;
                            assert(4 * (wi * hi) == len as int);
                            lemma_partial_sum_fits(
                                s,
                                width,
                                x0 as int,
                                x1 as int + 1,
                                y0 as int,
                                yy as int,
                                xx as int,
                                c as int,
                            );
                        }
                        let idx = (yy * w + xx) * 4 + c;
                        sum = sum + input_image[idx] as u128;
                        proof {
                            assert(idx as int == pixel_index(width, xx as int, yy as int, c as int));
                            assert(sum as int == win_sum(
                                s,
                                width,
                                x0 as int,
                                x1 as int + 1,
                                y0 as int,
                                yy as int,
                                c as int,
                            ) + row_sum(s, width, yy as int, x0 as int, xx as int + 1, c as int));
                        }
                        xx += 1;
                    }
                    proof {
                        assert(win_sum(
                            s,
                            width,
                            x0 as int,
                            x1 as int + 1,
                            y0 as int,
                            yy as int + 1,
                            c as int,
                        ) == win_sum(s, width, x0 as int, x1 as int + 1, y0 as int, yy as int, c as int)
                            + row_sum(s, width, yy as int, x0 as int, x1 as int + 1, c as int));
                    }
                    yy += 1;
                }
                proof {
                    lemma_win_sum_bounds(
                        s,
                        width,
                        x0 as int,
                        x1 as int + 1,
                        y0 as int,
                        y1 as int + 1,
                        c as int,
                    );
                    assert(255 * ((x1 as int + 1 - x0 as int) * (y1 as int + 1 - y0 as int)) == 255
                        * (cnt as int)) by (nonlinear_arith)
                        requires
                            cnt as int == (x1 as int - x0 as int + 1) * (y1 as int - y0 as int + 1),
                    ;
                    vstd::arithmetic::div_mod::lemma_div_is_ordered(
                        sum as int,
                        255 * (cnt as int),
                        cnt as int,
                    );
                    vstd::arithmetic::div_mod::lemma_div_multiples_vanish(255, cnt as int);
                    assert(255 * (cnt as int) == (cnt as int) * 255);
                    assert(sum as int / (cnt as int) <= 255);
                    vstd::arithmetic::div_mod::lemma_div_is_ordered(0, sum as int, cnt as int);
                }
                let avg = (sum / cnt as u128) as u8;
                proof {
                    let i = ((y as int) * wi + x as int) * 4 + c as int;
                    lemma_pixel_decode(width, x as int, y as int, c as int);
                    assert(blur_seq(s, width, k)[i] == blur_at(
                        s,
                        width,
                        k,
                        x as int,
                        y as int,
                        c as int,
                    ));
                    assert(avg == blur_at(s, width, k, x as int, y as int, c as int));
                }
                out.push(avg);
                c += 1;
            }
            x += 1;
        }
        proof {
            assert(((y as int) * wi + wi) * 4 == (((y as int) + 1) * wi) * 4) by (nonlinear_arith);
        }
        y += 1;
    }
    proof {
        assert(((h as int) * wi) * 4 == 4 * (wi * hi)) by (nonlinear_arith)
            requires
                hi == h as int,
        ;
        assert(out@ =~= blur_seq(s, width, k));
    }
    out
}

/// On a constant-colour image the blur is the identity: every window average
/// of a constant field is that constant, whatever the (odd) kernel size and
/// however the window was clamped at the borders.
pub proof fn lemma_blur_constant(s: Seq<u8>, width: u32, k: u32)
    requires
        valid_geometry(s.len(), width),
        k >= 1,
        forall|i: int, j: int|
            0 <= i < s.len() && 0 <= j < s.len() && i % 4 == j % 4 ==> s[i] == s[j],
    ensures
        blur_seq(s, width, k) == s,
{
    if width == 0 {
        assert(blur_seq(s, width, k) =~= s);
    } else {
        lemma_blur_constant_loaded(s, width, k);
    }
}

/// The loaded-image case of `lemma_blur_constant`.
proof fn lemma_blur_constant_loaded(s: Seq<u8>, width: u32, k: u32)
    requires
        valid_geometry(s.len(), width),
        width > 0,
        k >= 1,
        forall|i: int, j: int|
            0 <= i < s.len() && 0 <= j < s.len() && i % 4 == j % 4 ==> s[i] == s[j],
    ensures
        blur_seq(s, width, k) == s,
{
    let w = width as int;
    let h = image_height(s.len(), width) as int;
    vstd::arithmetic::div_mod::lemma_fundamental_div_mod(s.len() as int, w * 4);
    assert(s.len() == (w * 4) * h);
    assert forall|i: int| 0 <= i < s.len() implies blur_seq(s, width, k)[i] == s[i] by {
        let p = i / 4;
        let c = i % 4;
        let x = p % w;
        let y = p / w;
        assert(0 <= c < 4);
        assert(0 <= p < w * h) by (nonlinear_arith)
            requires
                0 <= i < s.len(),
                s.len() == (w * 4) * h,
                p == i / 4,
                0 < w,
        ;
        assert(0 <= x < w);
        assert(0 <= y < h) by (nonlinear_arith)
            requires
                0 <= p < w * h,
                0 < w,
                y == p / w,
        ;
        let r = (k - 1) / 2;
        let x0 = win_lo(x, r);
        let x1 = win_hi(x, r, w);
        let y0 = win_lo(y, r);
        let y1 = win_hi(y, r, h);
        let v = s[i];
        assert(0 <= x0 <= x <= x1 < w);
        assert(0 <= y0 <= y <= y1 < h);
        lemma_pixel_decode(width, x, y, c);
        vstd::arithmetic::div_mod::lemma_fundamental_div_mod(i, 4);
        vstd::arithmetic::div_mod::lemma_fundamental_div_mod(p, w);
        assert(i == 4 * p + c);
        assert(p == w * y + x);
        assert((y * w + x) * 4 + c == 4 * (w * y + x) + c) by (nonlinear_arith);
        assert(i == pixel_index(width, x, y, c));
        assert forall|xx: int, yy: int| x0 <= xx < x1 + 1 && y0 <= yy < y1 + 1 implies #[trigger] s[pixel_index(
            width,
            xx,
            yy,
            c,
        )] == v by {
            crate::pixel::lemma_pixel_index_in_bounds(s.len(), width, xx, yy);
            lemma_pixel_decode(width, xx, yy, c);
            assert(pixel_index(width, xx, yy, c) % 4 == c);
        }
        lemma_win_sum_const(s, width, x0, x1 + 1, y0, y1 + 1, c, v);
        let cnt = (x1 - x0 + 1) * (y1 - y0 + 1);
        assert(cnt >= 1) by (nonlinear_arith)
            requires
                x0 <= x1,
                y0 <= y1,
                cnt == (x1 - x0 + 1) * (y1 - y0 + 1),
        ;
        assert(win_sum(s, width, x0, x1 + 1, y0, y1 + 1, c) == (v as int) * cnt);
        vstd::arithmetic::div_mod::lemma_div_multiples_vanish(v as int, cnt);
        assert((v as int) * cnt == cnt * (v as int));
        assert(blur_at(s, width, k, x, y, c) == v);
    }
    assert(blur_seq(s, width, k) =~= s);
}

} // verus!
