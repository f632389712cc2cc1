//! Structural core of an MSCN (Mean-Subtracted Contrast-Normalized) image
//! feature pipeline.
//!
//! The pipeline turns a grayscale luminance grid into a grid of block-level
//! variance features: a normalized Gaussian kernel is convolved over the
//! image (with out-of-image taps skipped and no re-normalization) to obtain a
//! local mean and a local dispersion, the image is normalized pixel-wise into
//! MSCN coefficients, and the coefficients are pooled into non-overlapping
//! blocks.
//!
//! This crate verifies everything about the pipeline that does not depend on
//! floating-point arithmetic: row-major grid addressing with bounds checks,
//! kernel offset indexing and its out-of-range error, the exact set and order
//! of window taps used at each pixel (the boundary-skip policy), and the
//! block partition geometry with its truncation policy. The grids and the
//! kernel are generic over the sample type, so a driver instantiates them
//! with its floating-point samples and keeps only the arithmetic itself
//! outside the verified core.

pub mod blocks;
pub mod error;
pub mod grid;
pub mod kernel;
pub mod window;
