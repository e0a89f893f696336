//! System calls.

pub mod _exit;
pub mod munmap;
pub mod readv;
