//! Reconstruction of decoded AV1 frames into RGB(A) pixels, and the canonical
//! image that codecs share.
//!
//! A decoded frame's planes are copied out (`plane`), chroma is upsampled by
//! nearest neighbour (`chroma`), samples are converted to RGB (`color`) and
//! stored in one of six buffer shapes, with a separately coded alpha item
//! composited in (`frame`). The result is narrowed to eight bits, classified
//! and reoriented as an `image::Image` (`avif`, `orient`).

pub mod avif;
pub mod chroma;
pub mod color;
pub mod error;
pub mod format;
pub mod frame;
pub mod image;
pub mod orient;
pub mod plane;
