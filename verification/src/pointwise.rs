//! Single-pass per-byte transforms: invert and the gamma (power-law)
//! transform.
//!
//! Both walk the RGBA buffer once and touch only the red, green and blue
//! channels; the alpha channel passes through unchanged. The gamma transform
//! is driven by a 256-entry lookup table mapping each channel value to its
//! power-law image; building that table from a floating-point exponent is
//! numeric work that lives outside the verified core, while the law-like
//! structure of the transform (alpha untouched, identity and monotone tables
//! behave as such) is stated and proved here.

use vstd::prelude::*;

use crate::pixel::valid_geometry;

verus! {

/// How invert treats the byte at offset `i % 4 == c` of a pixel: RGB channels
/// are reflected around 255, alpha is kept.
pub open spec fn invert_byte(v: u8, c: int) -> u8 {
    if c == 3 {
        v
    } else {
        (255 - v) as u8
    }
}

/// The whole buffer after invert.
pub open spec fn invert_seq(s: Seq<u8>) -> Seq<u8> {
    Seq::new(s.len(), |i: int| invert_byte(s[i], i % 4))
}

/// How a 256-entry lookup table treats the byte at channel `c`: RGB channels
/// go through the table, alpha is kept.
pub open spec fn lut_byte(v: u8, c: int, lut: Seq<u8>) -> u8 {
    if c == 3 {
        v
    } else {
        lut[v as int]
    }
}

/// The whole buffer after a table-driven transform.
pub open spec fn gamma_seq(s: Seq<u8>, lut: Seq<u8>) -> Seq<u8> {
    Seq::new(s.len(), |i: int| lut_byte(s[i], i % 4, lut))
}

/// `output[i] = 255 - input[i]` for every red, green and blue channel byte;
/// alpha passes through unchanged.
pub fn invert(input_image: Vec<u8>, width: u32) -> (r: Vec<u8>)
    requires
        valid_geometry(input_image@.len(), width),
    ensures
        r@ == invert_seq(input_image@),
{
    let ghost orig = input_image@;
    let mut image = input_image;
    let n = image.len();
    let mut i: usize = 0;
    while i < n
        invariant
            i <= n,
            n == orig.len(),
            image@.len() == n,
            forall|j: int| 0 <= j < i ==> image@[j] == invert_seq(orig)[j],
            forall|j: int| i <= j < n ==> image@[j] == orig[j],
        decreases n - i,
    {
        if i % 4 != 3 {
            let v = image[i];
            image.set(i, 255 - v);
        }
        i += 1;
    }
    proof {
        assert(image@ =~= invert_seq(orig));
    }
    image
}

/// Applies a 256-entry lookup table to every red, green and blue channel
/// byte; alpha passes through unchanged. The table is the sampled power-law
/// curve `v -> round(255 * (v/255)^gamma)` when the caller performs a gamma
/// transform, but any table is accepted.
pub fn gamma_transform(input_image: Vec<u8>, width: u32, lut: &Vec<u8>) -> (r: Vec<u8>)
    requires
        valid_geometry(input_image@.len(), width),
        lut@.len() == 256,
    ensures
        r@ == gamma_seq(input_image@, lut@),
{
    let ghost orig = input_image@;
    let mut image = input_image;
    let n = image.len();
    let mut i: usize = 0;
    while i < n
        invariant
            i <= n,
            n == orig.len(),
            image@.len() == n,
            lut@.len() == 256,
            forall|j: int| 0 <= j < i ==> image@[j] == gamma_seq(orig, lut@)[j],
            forall|j: int| i <= j < n ==> image@[j] == orig[j],
        decreases n - i,
    {
        if i % 4 != 3 {
            let v = image[i];
            image.set(i, lut[v as usize]);
        }
        i += 1;
    }
    proof {
        assert(image@ =~= gamma_seq(orig, lut@));
    }
    image
}

/// Invert is an involution: applying it twice restores every byte.
pub proof fn lemma_invert_involution(s: Seq<u8>)
    ensures
        invert_seq(invert_seq(s)) == s,
{
    assert(invert_seq(invert_seq(s)) =~= s);
}

/// A table that maps every channel value to itself leaves the buffer
/// untouched: the gamma transform with exponent one is the identity.
pub proof fn lemma_gamma_identity(s: Seq<u8>, lut: Seq<u8>)
    requires
        lut.len() == 256,
        forall|v: int| 0 <= v < 256 ==> #[trigger] lut[v] == v as u8,
    ensures
        gamma_seq(s, lut) == s,
{
    assert(gamma_seq(s, lut) =~= s);
}

/// A table that never exceeds the identity — the shape a power-law curve
/// takes when its exponent is above one — never brightens any channel, and
/// alpha is kept exactly.
pub proof fn lemma_gamma_darkens(s: Seq<u8>, lut: Seq<u8>)
    requires
        lut.len() == 256,
        forall|v: int| 0 <= v < 256 ==> #[trigger] lut[v] <= v,
    ensures
        forall|i: int|
            0 <= i < s.len() && i % 4 != 3 ==> #[trigger] gamma_seq(s, lut)[i] <= s[i],
        forall|i: int| 0 <= i < s.len() && i % 4 == 3 ==> #[trigger] gamma_seq(s, lut)[i] == s[i],
{
}

/// A table that never falls below the identity — the shape a power-law curve
/// takes when its exponent is below one — never darkens any channel, and
/// alpha is kept exactly.
pub proof fn lemma_gamma_brightens(s: Seq<u8>, lut: Seq<u8>)
    requires
        lut.len() == 256,
        forall|v: int| 0 <= v < 256 ==> #[trigger] lut[v] >= v,
    ensures
        forall|i: int|
            0 <= i < s.len() && i % 4 != 3 ==> #[trigger] gamma_seq(s, lut)[i] >= s[i],
        forall|i: int| 0 <= i < s.len() && i % 4 == 3 ==> #[trigger] gamma_seq(s, lut)[i] == s[i],
{
}

} // verus!
