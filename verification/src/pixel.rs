//! The pixel buffer: a flat byte array of interleaved RGBA samples plus a
//! width. The height is derived from the length, never stored.

use vstd::prelude::*;

verus! {

/// Bytes per pixel: red, green, blue, alpha, one byte each.
pub const CHANNEL_COUNT: usize = 4;

/// A buffer is well-formed when its length splits into whole pixels and whole
/// rows: with width 0 only the empty sentinel (no image loaded) is allowed;
/// otherwise the length is an exact multiple of `width * 4` and the derived
/// height fits the 32-bit type that carries it.
pub open spec fn valid_geometry(len: nat, width: u32) -> bool {
    if width == 0 {
        len == 0
    } else {
        &&& len % ((width as nat) * 4) == 0
        &&& len / ((width as nat) * 4) <= u32::MAX as nat
    }
}

/// The height an RGBA buffer of `len` bytes and the given width has.
pub open spec fn image_height(len: nat, width: u32) -> nat {
    if width == 0 {
        0
    } else {
        len / ((width as nat) * 4)
    }
}

/// Byte position of channel `c` of the pixel at `(x, y)` in row-major RGBA
/// layout.
pub open spec fn pixel_index(width: u32, x: int, y: int, c: int) -> int {
    (y * (width as int) + x) * 4 + c
}

/// Runtime check of `valid_geometry`, for validating a buffer at the point
/// where it enters the system.
pub fn geometry_ok(len: usize, width: u32) -> (r: bool)
    ensures
        r == valid_geometry(len as nat, width),
{
    if width == 0 {
        len == 0
    } else {
        let l = len as u64;
        let wb = (width as u64) * 4;
        l % wb == 0 && l / wb <= u32::MAX as u64
    }
}

/// Mathematical content of a pixel buffer: the bytes, the width, and the
/// display-placement origin that rides along with the image.
pub ghost struct ImageModel {
    pub data: Seq<u8>,
    pub width: u32,
    pub origin: (u64, u64),
}

/// One image as the processing side holds it: the raw RGBA bytes, the width,
/// and an opaque origin (two 64-bit patterns supplied by the display side)
/// that must round-trip through the protocol untouched.
pub struct RawImage {
    buffer: Vec<u8>,
    width: u32,
    origin: (u64, u64),
}

impl View for RawImage {
    type V = ImageModel;

    closed spec fn view(&self) -> ImageModel {
        ImageModel { data: self.buffer@, width: self.width, origin: self.origin }
    }
}

impl RawImage {
    /// Whether the buffer's length is consistent with its width.
    pub open spec fn wf(&self) -> bool {
        valid_geometry(self@.data.len(), self@.width)
    }

    pub fn new(buffer: Vec<u8>, width: u32, origin: (u64, u64)) -> (r: RawImage)
        ensures
            r@.data == buffer@,
            r@.width == width,
            r@.origin == origin,
    {
        RawImage { buffer, width, origin }
    }

    pub fn width(&self) -> (r: u32)
        ensures
            r == self@.width,
    {
        self.width
    }

    /// Derived height. A width of 0 marks the empty sentinel and yields 0.
    pub fn height(&self) -> (r: u32)
        requires
            self.wf(),
        ensures
            r as nat == image_height(self@.data.len(), self@.width),
    {
        if self.width == 0 {
            0
        } else {
            let h = self.buffer.len() / CHANNEL_COUNT / (self.width as usize);
            proof {
                vstd::arithmetic::div_mod::lemma_div_denominator(
                    self.buffer@.len() as int,
                    4,
                    self.width as int,
                );
            }
            h as u32
        }
    }

    pub fn buffer(&self) -> (r: &Vec<u8>)
        ensures
            r@ == self@.data,
    {
        &self.buffer
    }

    /// An independent copy of the bytes, so that an algorithm can consume a
    /// clone while the pristine image stays untouched.
    pub fn clone_buffer(&self) -> (r: Vec<u8>)
        ensures
            r@ == self@.data,
    {
        let n = self.buffer.len();
        let mut out: Vec<u8> = Vec::new();
        let mut i: usize = 0;
        while i < n
            invariant
                i <= n,
                n == self.buffer@.len(),
                out@.len() == i,
                forall|j: int| 0 <= j < i ==> out@[j] == self.buffer@[j],
            decreases n - i,
        {
            out.push(self.buffer[i]);
            i += 1;
        }
        proof {
            assert(out@ =~= self@.data);
        }
        out
    }

    pub fn to_vec(self) -> (r: Vec<u8>)
        ensures
            r@ == self@.data,
    {
        self.buffer
    }

    pub fn origin(&self) -> (r: (u64, u64))
        ensures
            r == self@.origin,
    {
        self.origin
    }

    /// Bounds-checked read of the four channels of the pixel at `(x, y)`.
    pub fn pixel(&self, x: u32, y: u32) -> (r: (u8, u8, u8, u8))
        requires
            self.wf(),
            x < self@.width,
            y < image_height(self@.data.len(), self@.width),
        ensures
            r.0 == self@.data[pixel_index(self@.width, x as int, y as int, 0)],
            r.1 == self@.data[pixel_index(self@.width, x as int, y as int, 1)],
            r.2 == self@.data[pixel_index(self@.width, x as int, y as int, 2)],
            r.3 == self@.data[pixel_index(self@.width, x as int, y as int, 3)],
    {
        let n = self.buffer.len();
        proof {
            lemma_pixel_index_in_bounds(self@.data.len(), self@.width, x as int, y as int);
            assert(((y as int) * (self.width as int) + (x as int)) * 4 + 4 <= n as int);
        }
        let w = self.width as usize;
        let base = (y as usize * w + x as usize) * CHANNEL_COUNT;
        (self.buffer[base], self.buffer[base + 1], self.buffer[base + 2], self.buffer[base + 3])
    }
}

/// Every channel of an in-range pixel lies inside the buffer.
pub proof fn lemma_pixel_index_in_bounds(len: nat, width: u32, x: int, y: int)
    requires
        valid_geometry(len, width),
        0 <= x < width as int,
        0 <= y < image_height(len, width) as int,
    ensures
        forall|c: int| 0 <= c < 4 ==> 0 <= #[trigger] pixel_index(width, x, y, c) < len,
        0 <= y * (width as int) + x,
        (y * (width as int) + x) * 4 + 4 <= len,
{
    let w = width as int;
    let h = image_height(len, width) as int;
    vstd::arithmetic::div_mod::lemma_fundamental_div_mod(len as int, w * 4);
    assert(len == (w * 4) * h) by {
        assert(len % ((width as nat) * 4) == 0);
        assert(len / ((width as nat) * 4) == h);
    }
    assert((y * w + x) * 4 + 4 <= len) by (nonlinear_arith)
        requires
            0 <= x < w,
            0 <= y < h,
            len == (w * 4) * h,
    ;
    assert(0 <= (y * w + x) * 4) by (nonlinear_arith)
        requires
            0 <= x,
            0 <= y,
            0 < w,
    ;
}

} // verus!
