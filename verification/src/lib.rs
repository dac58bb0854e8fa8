//! A verified numeric engine for inspecting the color distribution of small
//! rectangular regions ("windows") of a raster image.
//!
//! The crate has two layers:
//!
//! * [`hist::ChannelHistogram`]: a bounded integer histogram over a fixed
//!   inclusive value range, one instance per color channel.  It records
//!   samples, derives linear bucket listings and a fixed-length 16-entry
//!   bucket vector, and reports summary statistics.
//! * [`scan::AnalysisState`]: a window-scanning controller that owns a
//!   rectangular region-of-interest over a source image, resamples the three
//!   channel histograms for that region on a timed cadence, and advances the
//!   window by a raster scan policy.
//!
//! Image decoding, windowing and drawing are outside collaborators: the core
//! only sees an in-memory [`grid::PixelGrid`] of plain 8-bit pixel values.

pub mod grid;
pub mod hist;
pub mod scan;
pub mod sums;
