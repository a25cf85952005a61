//! Layered dissection of captured link-layer frames into trees of decoded
//! header fields, with a pretty printer and the state machine that drives a
//! capture loop.

pub mod bytes;
pub mod driver;
pub mod layers;
pub mod pipeline;
pub mod registry;
pub mod render;
pub mod tree;
