//! Archive pipeline: format naming, level domains, a tree container format,
//! zstd framing, the embedded-tool cache plan and external tool command lines.
pub mod error;
pub mod backend;
pub mod container;
pub mod codec;
pub mod task;
pub mod cache;
pub mod tool;
pub mod menu;
