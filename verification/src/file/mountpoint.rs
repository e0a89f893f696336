//! Mountpoints, as far as open files deal with them.

use vstd::prelude::*;

verus! {

/// Flag of a mountpoint: access times are not updated.
pub const FLAG_NOATIME: u32 = 0b10;

/// A place at which a filesystem is mounted.
#[derive(Clone, Copy, Debug, PartialEq, Eq, Structural)]
pub struct MountPoint {
    /// The flags that the filesystem was mounted with.
    pub flags: u32,
}

impl MountPoint {
    /// Returns the flags that the filesystem was mounted with.
    pub fn get_flags(&self) -> (r: u32)
        ensures
            r == self.flags,
    {
        self.flags
    }
}

} // verus!
