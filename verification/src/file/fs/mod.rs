//! Filesystems.

pub mod kernfs;
