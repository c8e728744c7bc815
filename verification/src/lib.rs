//! Verified core of a non-destructive image editor.
//!
//! The library works on flat RGBA byte buffers. It provides the four
//! pixel-level algorithms (invert, gamma via a lookup table, box blur, Sobel
//! edge detection), the single-slot store that keeps the pristine source
//! image, and the command dispatcher that always re-derives a result from
//! that pristine source, never from a previously transformed buffer.

pub mod blur;
pub mod dispatcher;
pub mod messages;
pub mod pixel;
pub mod pointwise;
pub mod sobel;
