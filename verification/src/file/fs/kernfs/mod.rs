//! The filesystems that the kernel itself serves.

pub mod node;
