//! Zero-copy parser for AVIF still images, grids and animations.
//!
//! The parser maps a byte buffer into a queryable description of the image
//! items and animation samples inside it. Payloads are handed out as slices
//! of the buffer wherever an item is one contiguous range.
pub mod error;
pub mod fallible;
pub mod bytes;
pub mod bits;
pub mod boxes;
pub mod config;
pub mod reader;
pub mod items;
pub mod iloc;
pub mod props;
pub mod meta;
pub mod moov;
pub mod toplevel;
pub mod derived;
pub mod resolve;
pub mod stop;
pub mod parser;
pub mod obu;
pub mod eager;
pub mod laws;

pub use crate::config::{DecodeConfig, ParseOptions};
pub use crate::eager::{
    read_avif, read_avif_with_config, read_avif_with_options, AnimationConfig, AnimationFrame,
    AvifData,
};
pub use crate::error::Error;
pub use crate::obu::AV1Metadata;
pub use crate::parser::{AnimationInfo, AvifParser, FrameIterator, FrameRef};
pub use crate::props::GridConfig;
pub use enough::{Stop, StopReason, Unstoppable};
pub use fallible_collections::TryVec;
