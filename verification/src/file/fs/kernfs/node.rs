//! The nodes of a kernel-served filesystem.

use crate::errno::EResult;
use crate::errno::Errno;
use crate::file::perm::Gid;
use crate::file::perm::Uid;
use crate::file::perm::ROOT_GID;
use crate::file::perm::ROOT_UID;
use crate::file::FileContent;
use crate::file::Mode;
use crate::time::Timestamp;
use vstd::prelude::*;

verus! {

/// A node of a kernel-served filesystem.
///
/// A node that keeps none of its attributes takes the methods as they are:
/// it has one hard link, is readable by all, belongs to the superuser, and
/// has all its timestamps at zero; setting an attribute does nothing to it.
pub trait KernFSNode: Sized {
    /// Returns the number of hard links to the node.
    fn get_hard_links_count(&self) -> (r: u16)
        default_ensures
            r == 1,
    {
        1
    }

    /// Sets the number of hard links to the node.
    fn set_hard_links_count(&mut self, _hard_links_count: u16)
        default_ensures
            *final(self) == *old(self),
    {
    }

    /// Returns the permissions of the file.
    fn get_mode(&self) -> (r: Mode)
        default_ensures
            r == 0o444,
    {
        0o444
    }

    /// Sets the permissions of the file.
    fn set_mode(&mut self, _mode: Mode)
        default_ensures
            *final(self) == *old(self),
    {
    }

    /// Returns the user that owns the file.
    fn get_uid(&self) -> (r: Uid)
        default_ensures
            r == ROOT_UID,
    {
        ROOT_UID
    }

    /// Sets the user that owns the file.
    fn set_uid(&mut self, _uid: Uid)
        default_ensures
            *final(self) == *old(self),
    {
    }

    /// Returns the group that owns the file.
    fn get_gid(&self) -> (r: Gid)
        default_ensures
            r == ROOT_GID,
    {
        ROOT_GID
    }

    /// Sets the group that owns the file.
    fn set_gid(&mut self, _gid: Gid)
        default_ensures
            *final(self) == *old(self),
    {
    }

    /// Returns the time of the last access to the file.
    fn get_atime(&self) -> (r: Timestamp)
        default_ensures
            r == 0,
    {
        0
    }

    /// Sets the time of the last access to the file.
    fn set_atime(&mut self, _ts: Timestamp)
        default_ensures
            *final(self) == *old(self),
    {
    }

    /// Returns the time of the last change of the file's attributes.
    fn get_ctime(&self) -> (r: Timestamp)
        default_ensures
            r == 0,
    {
        0
    }

    /// Sets the time of the last change of the file's attributes.
    fn set_ctime(&mut self, _ts: Timestamp)
        default_ensures
            *final(self) == *old(self),
    {
    }

    /// Returns the time of the last change of the file's content.
    fn get_mtime(&self) -> (r: Timestamp)
        default_ensures
            r == 0,
    {
        0
    }

    /// Sets the time of the last change of the file's content.
    fn set_mtime(&mut self, _ts: Timestamp)
        default_ensures
            *final(self) == *old(self),
    {
    }

    /// Returns the content of the node.
    fn get_content(&mut self) -> (r: EResult<FileContent>)
    ;
}

/// A node that keeps its attributes and does nothing else: it has no bytes,
/// and reading and writing it does nothing.
#[derive(Clone, Copy, Debug, PartialEq, Eq, Structural)]
pub struct DummyKernFSNode {
    /// The number of hard links to the node.
    hard_links_count: u16,
    /// The permissions of the node.
    mode: Mode,
    /// The user that owns the node.
    uid: Uid,
    /// The group that owns the node.
    gid: Gid,
    /// The time of the last change of the attributes.
    ctime: Timestamp,
    /// The time of the last change of the content.
    mtime: Timestamp,
    /// The time of the last access.
    atime: Timestamp,
    /// The content of the node.
    content: FileContent,
}

/// What a node that keeps its attributes amounts to.
pub struct NodeState {
    /// The number of hard links to the node.
    pub hard_links_count: u16,
    /// The permissions of the node.
    pub mode: Mode,
    /// The user that owns the node.
    pub uid: Uid,
    /// The group that owns the node.
    pub gid: Gid,
    /// The time of the last change of the attributes.
    pub ctime: Timestamp,
    /// The time of the last change of the content.
    pub mtime: Timestamp,
    /// The time of the last access.
    pub atime: Timestamp,
    /// The content of the node.
    pub content: FileContent,
}

impl View for DummyKernFSNode {
    type V = NodeState;

    closed spec fn view(&self) -> NodeState {
        NodeState {
            hard_links_count: self.hard_links_count,
            mode: self.mode,
            uid: self.uid,
            gid: self.gid,
            ctime: self.ctime,
            mtime: self.mtime,
            atime: self.atime,
            content: self.content,
        }
    }
}

impl DummyKernFSNode {
    /// Creates a node with one hard link, whose timestamps are all `ts`, the
    /// current time.
    ///
    /// Arguments:
    /// - `mode` is the node's permissions.
    /// - `uid` is the user that owns the node.
    /// - `gid` is the group that owns the node.
    /// - `content` is the node's content.
    pub fn new(mode: Mode, uid: Uid, gid: Gid, content: FileContent, ts: Timestamp) -> (r: Self)
        ensures
            r@ == (NodeState {
                hard_links_count: 1,
                mode,
                uid,
                gid,
                ctime: ts,
                mtime: ts,
                atime: ts,
                content,
            }),
    {
        Self {
            hard_links_count: 1,
            mode,
            uid,
            gid,
            ctime: ts,
            mtime: ts,
            atime: ts,
            content,
        }
    }

    /// Returns the size of the node, which is zero.
    pub fn get_size(&self) -> (r: u64)
        ensures
            r == 0,
    {
        0
    }

    /// Reads nothing: leaves `_buff` as it is, and returns that no byte was
    /// read and that the end was reached.
    pub fn read(&mut self, _offset: u64, _buff: &mut [u8]) -> (r: Result<(u64, bool), Errno>)
        ensures
            r == Ok::<(u64, bool), Errno>((0, true)),
            final(self)@ == old(self)@,
            final(_buff)@ == old(_buff)@,
    {
        Ok((0, true))
    }

    /// Writes nothing, and returns that no byte was written.
    pub fn write(&mut self, _offset: u64, _buff: &[u8]) -> (r: Result<u64, Errno>)
        ensures
            r == Ok::<u64, Errno>(0),
            final(self)@ == old(self)@,
    {
        Ok(0)
    }

    /// Returns the events of `_mask` that have occurred: none.
    pub fn poll(&mut self, _mask: u32) -> (r: Result<u32, Errno>)
        ensures
            r == Ok::<u32, Errno>(0),
            final(self)@ == old(self)@,
    {
        Ok(0)
    }
}

impl KernFSNode for DummyKernFSNode {
    fn get_hard_links_count(&self) -> (r: u16)
        ensures
            r == self@.hard_links_count,
    {
        self.hard_links_count
    }

    fn set_hard_links_count(&mut self, hard_links_count: u16)
        ensures
            final(self)@ == (NodeState { hard_links_count, ..old(self)@ }),
    {
        self.hard_links_count = hard_links_count;
    }

    fn get_mode(&self) -> (r: Mode)
        ensures
            r == self@.mode,
    {
        self.mode
    }

    fn set_mode(&mut self, mode: Mode)
        ensures
            final(self)@ == (NodeState { mode, ..old(self)@ }),
    {
        self.mode = mode;
    }

    fn get_uid(&self) -> (r: Uid)
        ensures
            r == self@.uid,
    {
        self.uid
    }

    fn set_uid(&mut self, uid: Uid)
        ensures
            final(self)@ == (NodeState { uid, ..old(self)@ }),
    {
        self.uid = uid;
    }

    fn get_gid(&self) -> (r: Gid)
        ensures
            r == self@.gid,
    {
        self.gid
    }

    fn set_gid(&mut self, gid: Gid)
        ensures
            final(self)@ == (NodeState { gid, ..old(self)@ }),
    {
        self.gid = gid;
    }

    fn get_atime(&self) -> (r: Timestamp)
        ensures
            r == self@.atime,
    {
        self.atime
    }

    fn set_atime(&mut self, ts: Timestamp)
        ensures
            final(self)@ == (NodeState { atime: ts, ..old(self)@ }),
    {
        self.atime = ts;
    }

    fn get_ctime(&self) -> (r: Timestamp)
        ensures
            r == self@.ctime,
    {
        self.ctime
    }

    fn set_ctime(&mut self, ts: Timestamp)
        ensures
            final(self)@ == (NodeState { ctime: ts, ..old(self)@ }),
    {
        self.ctime = ts;
    }

    fn get_mtime(&self) -> (r: Timestamp)
        ensures
            r == self@.mtime,
    {
        self.mtime
    }

    fn set_mtime(&mut self, ts: Timestamp)
        ensures
            final(self)@ == (NodeState { mtime: ts, ..old(self)@ }),
    {
        self.mtime = ts;
    }

    fn get_content(&mut self) -> (r: EResult<FileContent>)
        ensures
            r == Ok::<FileContent, Errno>(old(self)@.content),
            final(self)@ == old(self)@,
    {
        Ok(self.content)
    }
}

} // verus!
