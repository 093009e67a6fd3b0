//! Discovery and transfer of per-account and per-character configuration
//! profiles inside a game installation's on-disk directory layout.
//!
//! The crate has two cooperating subsystems: the installation scanner
//! (`wow`), which reduces a snapshot of an unpredictable directory tree to a
//! validated, sorted hierarchy of versions and profiles, and the copy engine
//! (`copy`), which drives a deterministic sequence of file copies and cache
//! invalidations for a fully-resolved source/destination profile pair.
//! Filesystem access itself is left to the caller: the scanner consumes a
//! plain snapshot value, and the copy engine hands out one action at a time
//! and is fed the outcome of each.

pub mod classify;
pub mod copy;
pub mod display;
pub mod fstree;
pub mod operation;
pub mod order;
pub mod wow;
