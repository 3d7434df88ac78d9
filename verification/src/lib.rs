//! Packaging pipeline for audio plugins: recovers the native libraries a
//! static library was linked against, and plans how the library is wrapped
//! into plugin bundles and where the bundles are placed.

pub mod auv2;
pub mod error;
pub mod layout;
pub mod packaging;
pub mod paths;
pub mod pipeline;
pub mod placer;
pub mod platform;
pub mod request;
pub mod resolver;
pub mod scanner;
pub mod text;
