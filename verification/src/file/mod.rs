//! Files.
//!
//! A [`File`] holds what the kernel knows of one file: where it lies, what
//! kind of file it is, its timestamps and its bytes.

pub mod buffer;
pub mod fs;
pub mod mountpoint;
pub mod open_file;
pub mod perm;

use crate::errno::Errno;
use crate::time::Timestamp;
use vstd::prelude::*;

verus! {

/// The permissions of a file.
pub type Mode = u32;

/// The number of a file on its filesystem.
pub type INode = u64;

/// Where a file lies.
#[derive(Clone, Copy, Debug, PartialEq, Eq, Structural)]
pub enum FileLocation {
    /// The file lies on a mounted filesystem.
    Filesystem {
        /// The identifier of the mountpoint.
        mountpoint_id: u32,
        /// The number of the file on the filesystem.
        inode: INode,
    },
    /// The file lies on no filesystem: a pipe or a socket.
    Virtual {
        /// The identifier of the file.
        id: u32,
    },
}

impl FileLocation {
    /// Returns the identifier of the mountpoint on which the file lies, if
    /// it lies on one.
    pub fn get_mountpoint_id(&self) -> (r: Option<u32>)
        ensures
            r == match *self {
                FileLocation::Filesystem { mountpoint_id, .. } => Some(mountpoint_id),
                FileLocation::Virtual { .. } => None,
            },
    {
        match self {
            FileLocation::Filesystem { mountpoint_id, .. } => Some(*mountpoint_id),
            FileLocation::Virtual { .. } => None,
        }
    }
}

/// What kind of file a file is.
#[derive(Clone, Copy, Debug, PartialEq, Eq, Structural)]
pub enum FileContent {
    /// A regular file.
    Regular,
    /// A directory.
    Directory,
    /// A symbolic link.
    Link,
    /// A named pipe.
    Fifo,
    /// A socket.
    Socket,
    /// A block device.
    BlockDevice {
        /// The major number of the device.
        major: u32,
        /// The minor number of the device.
        minor: u32,
    },
    /// A character device.
    CharDevice {
        /// The major number of the device.
        major: u32,
        /// The minor number of the device.
        minor: u32,
    },
}

/// A file.
pub struct File {
    location: FileLocation,
    content: FileContent,
    data: Vec<u8>,
    atime: Timestamp,
    mtime: Timestamp,
}

/// What a file amounts to.
pub struct FileState {
    /// Where the file lies.
    pub location: FileLocation,
    /// What kind of file it is.
    pub content: FileContent,
    /// The bytes of the file.
    pub data: Seq<u8>,
    /// When the file was last read.
    pub atime: Timestamp,
    /// When the file was last written.
    pub mtime: Timestamp,
}

impl FileState {
    /// The number of bytes that a read at the offset `off` into a buffer of
    /// `len` bytes yields: what is left of the file from `off` on, as far
    /// as the buffer holds it.
    pub open spec fn read_len(self, off: int, len: int) -> int {
        if off >= self.data.len() {
            0
        } else if len <= self.data.len() - off {
            len
        } else {
            self.data.len() - off
        }
    }

    /// The bytes that a read at the offset `off` into a buffer of `len`
    /// bytes yields.
    pub open spec fn read_bytes(self, off: int, len: int) -> Seq<u8> {
        if off >= self.data.len() {
            Seq::empty()
        } else {
            self.data.subrange(off, off + self.read_len(off, len))
        }
    }

    /// The bytes of the file after `buf` was written at the offset `off`.
    /// Where `off` lies behind the end of the file, zeros fill the gap.
    pub open spec fn written(self, off: int, buf: Seq<u8>) -> Seq<u8> {
        Seq::new(
            if off + buf.len() > self.data.len() {
                (off + buf.len()) as nat
            } else {
                self.data.len()
            },
            |i: int|
                if off <= i < off + buf.len() {
                    buf[i - off]
                } else if i < self.data.len() {
                    self.data[i]
                } else {
                    0u8
                },
        )
    }
}

impl View for File {
    type V = FileState;

    closed spec fn view(&self) -> FileState {
        FileState {
            location: self.location,
            content: self.content,
            data: self.data@,
            atime: self.atime,
            mtime: self.mtime,
        }
    }
}

impl File {
    /// Creates an empty file of the kind `content` at `location`, with both
    /// timestamps at `ts`.
    pub fn new(location: FileLocation, content: FileContent, ts: Timestamp) -> (r: File)
        ensures
            r@ == (FileState { location, content, data: Seq::empty(), atime: ts, mtime: ts }),
    {
        File { location, content, data: Vec::new(), atime: ts, mtime: ts }
    }

    /// Returns where the file lies.
    pub fn get_location(&self) -> (r: &FileLocation)
        ensures
            *r == self@.location,
    {
        &self.location
    }

    /// Returns what kind of file the file is.
    pub fn get_content(&self) -> (r: &FileContent)
        ensures
            *r == self@.content,
    {
        &self.content
    }

    /// Returns the size of the file in bytes.
    pub fn get_size(&self) -> (r: u64)
        ensures
            r == self@.data.len(),
    {
        self.data.len() as u64
    }

    /// Returns when the file was last read.
    pub fn get_atime(&self) -> (r: Timestamp)
        ensures
            r == self@.atime,
    {
        self.atime
    }

    /// Sets when the file was last read.
    pub fn set_atime(&mut self, ts: Timestamp)
        ensures
            final(self)@ == (FileState { atime: ts, ..old(self)@ }),
    {
        self.atime = ts;
    }

    /// Returns when the file was last written.
    pub fn get_mtime(&self) -> (r: Timestamp)
        ensures
            r == self@.mtime,
    {
        self.mtime
    }

    /// Sets when the file was last written.
    pub fn set_mtime(&mut self, ts: Timestamp)
        ensures
            final(self)@ == (FileState { mtime: ts, ..old(self)@ }),
    {
        self.mtime = ts;
    }

    /// Reads from the offset `off` of the file into the beginning of `buf`.
    /// Returns the number of bytes read, and whether the end of the file
    /// was reached. The rest of `buf` is left as it is.
    pub fn read(&self, off: u64, buf: &mut [u8]) -> (r: Result<(u64, bool), Errno>)
        ensures
            self@.data.len() <= usize::MAX,
            r == Ok::<(u64, bool), Errno>(
                (
                    self@.read_len(off as int, old(buf)@.len() as int) as u64,
                    off + self@.read_len(off as int, old(buf)@.len() as int) >= self@.data.len(),
                ),
            ),
            final(buf)@ == self@.read_bytes(off as int, old(buf)@.len() as int) + old(buf)@.skip(
                self@.read_len(off as int, old(buf)@.len() as int),
            ),
    {
        let size = self.data.len();
        if off >= size as u64 {
            assert(buf@ =~= Seq::<u8>::empty() + old(buf)@.skip(0));
            return Ok((0, true));
        }
        let start = off as usize;
        let len = if buf.len() <= size - start {
            buf.len()
        } else {
            size - start
        };
        let mut i: usize = 0;
        while i < len
            invariant
                i <= len,
                start + len <= self.data@.len(),
                self.data@.len() <= usize::MAX,
                len <= buf@.len(),
                buf@.len() == old(buf)@.len(),
                forall|k: int| 0 <= k < i ==> buf@[k] == self.data@[start + k],
                forall|k: int| i <= k < buf@.len() ==> buf@[k] == old(buf)@[k],
            decreases len - i,
        {
            buf[i] = self.data[start + i];
            i += 1;
        }
        assert(buf@ =~= self@.data.subrange(start as int, start + len) + old(buf)@.skip(
            len as int,
        ));
        Ok((len as u64, start + len >= size))
    }

    /// Writes `buf` at the offset `off` of the file, and returns the number
    /// of bytes written. Where `off` lies behind the end of the file, zeros
    /// fill the gap.
    ///
    /// Fails with `EINVAL`, and writes nothing, if the file would grow
    /// beyond what memory can address.
    pub fn write(&mut self, off: u64, buf: &[u8]) -> (r: Result<u64, Errno>)
        ensures
            off + buf@.len() > usize::MAX ==> r == Err::<u64, Errno>(Errno::EINVAL) && final(self)@
                == old(self)@,
            off + buf@.len() <= usize::MAX ==> r == Ok::<u64, Errno>(buf@.len() as u64)
                && final(self)@ == (FileState {
                data: old(self)@.written(off as int, buf@),
                ..old(self)@
            }),
    {
        if off > (usize::MAX - buf.len()) as u64 {
            return Err(Errno::EINVAL);
        }
        let start = off as usize;
        while self.data.len() < start
            invariant
                self.data@.len() >= old(self).data@.len(),
                self.data@.len() <= start || self.data@ == old(self).data@,
                self.location == old(self).location,
                self.content == old(self).content,
                self.atime == old(self).atime,
                self.mtime == old(self).mtime,
                forall|k: int| 0 <= k < old(self).data@.len() ==> self.data@[k] == old(self).data@[k],
                forall|k: int| old(self).data@.len() <= k < self.data@.len() ==> self.data@[k] == 0,
            decreases start - self.data@.len(),
        {
            self.data.push(0);
        }
        let ghost base = self.data@;
        assert(base.len() == if start > old(self).data@.len() {
            start as nat
        } else {
            old(self).data@.len()
        });
        let mut i: usize = 0;
        while i < buf.len()
            invariant
                i <= buf@.len(),
                start + buf@.len() <= usize::MAX,
                start <= base.len(),
                self.location == old(self).location,
                self.content == old(self).content,
                self.atime == old(self).atime,
                self.mtime == old(self).mtime,
                self.data@.len() == if start + i > base.len() {
                    (start + i) as nat
                } else {
                    base.len()
                },
                forall|k: int| 0 <= k < start ==> self.data@[k] == base[k],
                forall|k: int| start <= k < start + i ==> self.data@[k] == buf@[k - start],
                forall|k: int| start + i <= k < self.data@.len() ==> self.data@[k] == base[k],
            decreases buf@.len() - i,
        {
            if start + i < self.data.len() {
                self.data[start + i] = buf[i];
            } else {
                self.data.push(buf[i]);
            }
            i += 1;
        }
        assert(self.data@.len() == old(self)@.written(off as int, buf@).len());
        assert forall|k: int| 0 <= k < self.data@.len() implies self.data@[k] == old(
            self,
        )@.written(off as int, buf@)[k] by {
            if k < start {
                assert(self.data@[k] == base[k]);
            } else if k >= start + buf@.len() {
                assert(self.data@[k] == base[k]);
            }
        }
        assert(self.data@ =~= old(self)@.written(off as int, buf@));
        Ok(buf.len() as u64)
    }
}

} // verus!
