//! A perceptual image fingerprint with one brightness threshold per quadrant.
//!
//! A square grayscale image is split into four quadrants. Each quadrant gets
//! its own threshold, the lower median of its pixels, and every pixel becomes
//! one bit: set where the pixel is at least as bright as the threshold of its
//! quadrant. The bits can be written as hexadecimal text and read back.

use vstd::prelude::*;

pub mod gray;
pub mod hash;
pub mod hashmath;
pub mod median;
pub mod subarea;

verus! {

/// Side length, in pixels, of the square images that are fingerprinted.
/// It is even, so that the image splits into four quadrants of equal size.
pub const SIZE: u32 = 16;

/// Number of pixels of an image, and of bits of its fingerprint.
pub const HASHLEN: usize = 256;

/// Number of hexadecimal digits that hold a fingerprint's bits.
pub const HEXLEN: usize = 64;

} // verus!
