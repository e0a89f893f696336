//! Owners and permissions of files.

use vstd::prelude::*;

verus! {

/// The identifier of a user.
pub type Uid = u16;

/// The identifier of a group.
pub type Gid = u16;

/// The identifier of the superuser.
pub const ROOT_UID: Uid = 0;

/// The identifier of the superuser's group.
pub const ROOT_GID: Gid = 0;

} // verus!
