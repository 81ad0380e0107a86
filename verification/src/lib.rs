//! Core logic of a GPU-backed virtual RAM disk.
//!
//! The crate covers the decisions and computations of the disk: disk
//! geometry (block size validation and block-count calculation), size
//! argument parsing, compute-device selection, diagnostic formatting of
//! memory sizes, the block-device read/write/flush/trim semantics over a
//! byte buffer, and the mount/unmount lifecycle state machine. The
//! hardware itself (GPU buffers, the kernel block-device loop, signal
//! handling) is driven by a thin unverified shell around this crate.

pub mod decimal;
pub mod fmtsize;
pub mod geometry;
pub mod registry;
pub mod disk;
pub mod lifecycle;
pub mod sizearg;
