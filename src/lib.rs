//! Stamps numbered labels into a chosen region of an image.
//!
//! The library holds the numerical core: mapping a selection made on a
//! scaled display into image pixels, the per-frame hue schedule, the
//! placement and quarter-turn compositing of rendered text, the
//! luminance-preserving tint, the naming of a batch and the state of the
//! rectangle picker.
pub mod geometry;
pub mod raster;
pub mod compositor;
pub mod hue;
pub mod color;
pub mod batch;
pub mod selection;
pub mod processor;
pub mod panel;
