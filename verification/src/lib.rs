//! Perceptual fingerprints for raster images.
//!
//! A [`Hasher`] resizes a grid of luminance samples to the small grid that its
//! algorithm works on, draws one bit per cell or block from it, and packs the
//! bits into a [`Fingerprint`]. Fingerprints of similar images differ in few
//! bits; [`Fingerprint::distance`] counts them.

pub mod algorithm;
pub mod bits;
pub mod distance;
pub mod error;
pub mod fingerprint;
pub mod grid;
pub mod hasher;
pub mod hex;
pub mod resize;
pub mod sums;

pub use crate::algorithm::HashAlg;
pub use crate::error::HashError;
pub use crate::fingerprint::Fingerprint;
pub use crate::grid::SampleGrid;
pub use crate::hasher::{Hasher, HasherConfig};
pub use crate::resize::{resize, FilterType, MAX_DIMENSION};
