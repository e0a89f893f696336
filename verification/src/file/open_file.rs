//! Open file descriptions.
//!
//! An open file description points to a file and lets a process work on
//! it. File descriptors point to it in turn, so that several of them can
//! share one offset and one set of flags.
//!
//! The system counts how many descriptions are open on each file. The
//! count is kept in [`OpenFiles`].

use crate::device::DeviceID;
use crate::device::DeviceManager;
use crate::device::DeviceManagerState;
use crate::device::DeviceType;
use crate::errno::EResult;
use crate::errno::Errno;
use crate::file::buffer::BufferState;
use crate::file::buffer::BufferTable;
use crate::file::mountpoint::MountPoint;
use crate::file::mountpoint::FLAG_NOATIME;
use crate::file::File;
use crate::file::FileContent;
use crate::file::FileLocation;
use crate::file::FileState;
use crate::process::Pid;
use crate::process::Process;
use crate::process::State;
use crate::time::Timestamp;
use crate::util::assoc::assoc_map;
use crate::util::assoc::distinct_keys;
use crate::util::assoc::has_key;
use crate::util::assoc::lemma_assoc_keys;
use crate::util::assoc::lemma_assoc_push;
use crate::util::assoc::lemma_assoc_remove;
use crate::util::assoc::lemma_assoc_update;
use crate::util::assoc::lemma_assoc_value;
use vstd::prelude::*;

verus! {

/// Read only.
pub const O_RDONLY: i32 = 0b00000000000000000000000000000000;

/// Write only.
pub const O_WRONLY: i32 = 0b00000000000000000000000000000001;

/// Read and write.
pub const O_RDWR: i32 = 0b00000000000000000000000000000010;

/// Each write goes to the end of the file, so that data is appended.
pub const O_APPEND: i32 = 0b00000000000000000000010000000000;

/// A signal is sent when reading or writing becomes possible.
pub const O_ASYNC: i32 = 0b00000000000000000010000000000000;

/// Close-on-exec.
pub const O_CLOEXEC: i32 = 0b00000000000010000000000000000000;

/// The file is created if it does not exist.
pub const O_CREAT: i32 = 0b00000000000000000000000001000000;

/// Data is not cached.
pub const O_DIRECT: i32 = 0b00000000000000000100000000000000;

/// Opening fails if the path is not a directory.
pub const O_DIRECTORY: i32 = 0b00000000000000010000000000000000;

/// Together with `O_CREAT`: opening fails if the file exists.
pub const O_EXCL: i32 = 0b00000000000000000000000010000000;

/// Files of more than 2^32 bytes can be opened.
pub const O_LARGEFILE: i32 = 0b00000000000000001000000000000000;

/// The access time of the file is not updated.
pub const O_NOATIME: i32 = 0b00000000000001000000000000000000;

/// A terminal that is opened does not become the controlling terminal.
pub const O_NOCTTY: i32 = 0b00000000000000000000000100000000;

/// Symbolic links are not followed.
pub const O_NOFOLLOW: i32 = 0b00000000000000100000000000000000;

/// Reading and writing do not block.
pub const O_NONBLOCK: i32 = 0b00000000000000000000100000000000;

/// A write returns once the data has reached the hardware.
pub const O_SYNC: i32 = 0b00000000000100000001000000000000;

/// The file is cut to length zero if it exists.
pub const O_TRUNC: i32 = 0b00000000000000000000001000000000;

/// The flags that [`OpenFile::set_flags`] leaves as they are: the access
/// mode and the flags that matter only while a file is being opened.
pub const IGNORED_FLAGS: i32 = 0b11 | O_RDWR | O_CREAT | O_EXCL | O_NOCTTY | O_TRUNC;

/// The request that asks for the number of bytes left to read.
pub const FIONREAD: u32 = 0x541b;

/// The number of open file descriptions on each file.
pub struct OpenFiles {
    counts: Vec<(FileLocation, usize)>,
}

impl View for OpenFiles {
    type V = Map<FileLocation, usize>;

    /// The number of open file descriptions, for each location that has
    /// one.
    closed spec fn view(&self) -> Map<FileLocation, usize> {
        assoc_map(self.counts@)
    }
}

impl OpenFiles {
    /// Whether the counts are consistent: no location occurs twice, and no
    /// count is zero. Every operation keeps this.
    pub closed spec fn inv(&self) -> bool {
        &&& distinct_keys(self.counts@)
        &&& forall|i: int| 0 <= i < self.counts@.len() ==> (#[trigger] self.counts@[i]).1 > 0
    }

    /// The number of open file descriptions at `loc`.
    pub open spec fn spec_count(&self, loc: FileLocation) -> usize {
        if self@.contains_key(loc) {
            self@[loc]
        } else {
            0
        }
    }

    /// Creates the counts of a system in which no file is open.
    pub fn new() -> (r: OpenFiles)
        ensures
            r.inv(),
            r@ == Map::<FileLocation, usize>::empty(),
    {
        OpenFiles { counts: Vec::new() }
    }

    /// Returns the position of the count at `loc`.
    fn find(&self, loc: &FileLocation) -> (r: Option<usize>)
        ensures
            r matches Some(i) ==> i < self.counts@.len() && self.counts@[i as int].0 == *loc,
            r is None ==> !has_key(self.counts@, *loc),
            r is Some <==> self@.contains_key(*loc),
    {
        let mut i: usize = 0;
        while i < self.counts.len()
            invariant
                i <= self.counts@.len(),
                forall|k: int| 0 <= k < i ==> (#[trigger] self.counts@[k]).0 != *loc,
            decreases self.counts@.len() - i,
        {
            if self.counts[i].0 == *loc {
                proof {
                    lemma_assoc_keys(self.counts@, *loc);
                }
                return Some(i);
            }
            i += 1;
        }
        proof {
            lemma_assoc_keys(self.counts@, *loc);
        }
        None
    }

    /// Returns the number of open file descriptions at `loc`.
    #[verifier::when_used_as_spec(spec_count)]
    pub fn count(&self, loc: FileLocation) -> (r: usize)
        requires
            self.inv(),
        ensures
            r == self.spec_count(loc),
            self@.contains_key(loc) ==> r > 0,
    {
        match self.find(&loc) {
            Some(i) => {
                proof {
                    lemma_assoc_value(self.counts@, i as int);
                }
                self.counts[i].1
            },
            None => 0,
        }
    }

    /// Counts one more open file description at `loc`.
    fn increment(&mut self, loc: FileLocation)
        requires
            old(self).inv(),
            old(self).spec_count(loc) < usize::MAX,
        ensures
            final(self).inv(),
            final(self)@ == old(self)@.insert(loc, (old(self).spec_count(loc) + 1) as usize),
    {
        match self.find(&loc) {
            Some(i) => {
                proof {
                    lemma_assoc_value(self.counts@, i as int);
                    lemma_assoc_update(
                        self.counts@,
                        i as int,
                        (self.counts@[i as int].1 + 1) as usize,
                    );
                }
                self.counts[i].1 += 1;
                assert(self.counts@ =~= old(self).counts@.update(
                    i as int,
                    (loc, (old(self).counts@[i as int].1 + 1) as usize),
                ));
            },
            None => {
                proof {
                    lemma_assoc_push(self.counts@, loc, 1usize);
                }
                self.counts.push((loc, 1));
            },
        }
    }

    /// Counts one open file description less at `loc`. A count that comes
    /// to zero is removed. Does nothing if none is open at `loc`.
    fn decrement(&mut self, loc: FileLocation)
        requires
            old(self).inv(),
        ensures
            final(self).inv(),
            final(self)@ == if !old(self)@.contains_key(loc) {
                old(self)@
            } else if old(self)@[loc] == 1 {
                old(self)@.remove(loc)
            } else {
                old(self)@.insert(loc, (old(self)@[loc] - 1) as usize)
            },
    {
        match self.find(&loc) {
            Some(i) => {
                proof {
                    lemma_assoc_value(self.counts@, i as int);
                }
                if self.counts[i].1 == 1 {
                    proof {
                        lemma_assoc_remove(self.counts@, i as int);
                    }
                    self.counts.remove(i);
                } else {
                    proof {
                        lemma_assoc_update(
                            self.counts@,
                            i as int,
                            (self.counts@[i as int].1 - 1) as usize,
                        );
                    }
                    self.counts[i].1 -= 1;
                    assert(self.counts@ =~= old(self).counts@.update(
                        i as int,
                        (loc, (old(self).counts@[i as int].1 - 1) as usize),
                    ));
                }
            },
            None => {},
        }
    }
}

/// An open file description.
pub struct OpenFile {
    /// The open file.
    file: File,
    /// The location of the file.
    location: FileLocation,
    /// The flags of the open file description.
    flags: i32,
    /// The current offset in the file.
    curr_off: u64,
}

/// What an open file description amounts to.
pub struct OpenFileState {
    /// The open file.
    pub file: FileState,
    /// The location of the file.
    pub location: FileLocation,
    /// The flags of the open file description.
    pub flags: i32,
    /// The current offset in the file.
    pub offset: u64,
}

impl OpenFileState {
    /// Whether the file can be read from: it is not open for writing only.
    pub open spec fn can_read(self) -> bool {
        self.flags & 0b11 != O_WRONLY
    }

    /// Whether the file can be written to: it is open for writing only, or
    /// for reading and writing.
    pub open spec fn can_write(self) -> bool {
        self.flags & 0b11 == O_WRONLY || self.flags & 0b11 == O_RDWR
    }

    /// Whether reading and writing set the access time of the file, where
    /// `mountpoint` is the mountpoint that the file lies on, if it lies on
    /// one.
    pub open spec fn is_atime_updated(self, mountpoint: Option<MountPoint>) -> bool {
        match mountpoint {
            Some(mp) => mp.flags & FLAG_NOATIME != 0,
            None => true,
        }
    }

    /// The flags after `flags` were set: the ignored flags stay as they
    /// are, the others are those of `flags`.
    pub open spec fn flags_set(self, flags: i32) -> i32 {
        (self.flags & IGNORED_FLAGS) | (flags & !IGNORED_FLAGS)
    }

    /// The state after a read into a buffer of `len` bytes at the time
    /// `timestamp`.
    pub open spec fn after_read(
        self,
        len: int,
        mountpoint: Option<MountPoint>,
        timestamp: Timestamp,
    ) -> OpenFileState {
        OpenFileState {
            file: FileState {
                atime: if self.is_atime_updated(mountpoint) {
                    timestamp
                } else {
                    self.file.atime
                },
                ..self.file
            },
            offset: (self.offset + self.file.read_len(self.offset as int, len)) as u64,
            ..self
        }
    }

    /// The offset at which a write begins: the end of the file if data is
    /// appended, and else the current offset.
    pub open spec fn write_offset(self) -> u64 {
        if self.flags & O_APPEND != 0 {
            self.file.data.len() as u64
        } else {
            self.offset
        }
    }

    /// The state after a write of `buf` at the time `timestamp`. The
    /// timestamps and the offset are set before the data is written, so
    /// that they are set also where the data does not fit.
    pub open spec fn after_write(
        self,
        buf: Seq<u8>,
        mountpoint: Option<MountPoint>,
        timestamp: Timestamp,
    ) -> OpenFileState {
        let off = self.write_offset();
        let fits = off + buf.len() <= usize::MAX;
        OpenFileState {
            file: FileState {
                atime: if self.is_atime_updated(mountpoint) {
                    timestamp
                } else {
                    self.file.atime
                },
                mtime: timestamp,
                data: if fits {
                    self.file.written(off as int, buf)
                } else {
                    self.file.data
                },
                ..self.file
            },
            offset: if fits {
                (off + buf.len()) as u64
            } else {
                off
            },
            ..self
        }
    }

    /// The device that a process waits on when it waits for the file: the
    /// block or character device with the file's numbers, if the file is a
    /// device.
    pub open spec fn waits_on_device(self) -> Option<DeviceID> {
        match self.file.content {
            FileContent::BlockDevice { major, minor } => Some(
                DeviceID { type_: DeviceType::Block, major, minor },
            ),
            FileContent::CharDevice { major, minor } => Some(
                DeviceID { type_: DeviceType::Char, major, minor },
            ),
            _ => None,
        }
    }

    /// Whether a process that waits for the file waits on the file's
    /// buffer: the file is a pipe or a socket.
    pub open spec fn waits_on_buffer(self) -> bool {
        self.file.content == FileContent::Fifo || self.file.content == FileContent::Socket
    }

    /// The buffers after the process `pid` began to wait for the events of
    /// `mask` on the file: where the file's buffer is waited on and exists,
    /// the process waits on it.
    pub open spec fn buffers_awaited(
        self,
        buffers: Map<FileLocation, BufferState>,
        pid: Pid,
        mask: u32,
    ) -> Map<FileLocation, BufferState> {
        if self.waits_on_buffer() && buffers.contains_key(self.location) {
            buffers.insert(self.location, buffers[self.location].awaited(pid, mask))
        } else {
            buffers
        }
    }

    /// The devices after the process `pid` began to wait for the events of
    /// `mask` on the file: where the file's device is waited on and is
    /// registered, the process waits on it.
    pub open spec fn devices_awaited(
        self,
        devices: DeviceManagerState,
        pid: Pid,
        mask: u32,
    ) -> DeviceManagerState {
        match self.waits_on_device() {
            Some(id) if devices.devices.contains_key(id) => devices.with_device(
                devices.devices[id].awaited(pid, mask),
            ),
            _ => devices,
        }
    }

    /// Whether a process that begins to wait for the file is put to sleep:
    /// something stands behind the file that it can wait on.
    pub open spec fn puts_to_sleep(
        self,
        buffers: Map<FileLocation, BufferState>,
        devices: DeviceManagerState,
    ) -> bool {
        ||| self.waits_on_buffer() && buffers.contains_key(self.location)
        ||| self.waits_on_device() matches Some(id) && devices.devices.contains_key(id)
    }

    /// The number that the request for the bytes left to read yields: the
    /// size of the file less the offset, cut to 32 bits.
    pub open spec fn bytes_left(self) -> i32 {
        if self.offset >= self.file.data.len() {
            0
        } else {
            (self.file.data.len() - self.offset) as i32
        }
    }
}

impl View for OpenFile {
    type V = OpenFileState;

    closed spec fn view(&self) -> OpenFileState {
        OpenFileState {
            file: self.file@,
            location: self.location,
            flags: self.flags,
            offset: self.curr_off,
        }
    }
}

impl OpenFile {
    /// Creates an open file description on `file` with `flags`, at offset
    /// zero.
    ///
    /// One more description is counted as open on the file in
    /// `open_files`. If the file has a buffer in `buffers`, one more end is
    /// counted as open on it: for reading if the description can be read
    /// from, and for writing if it can be written to.
    pub fn new(
        file: File,
        flags: i32,
        open_files: &mut OpenFiles,
        buffers: &mut BufferTable,
    ) -> (r: EResult<Self>)
        requires
            old(open_files).inv(),
            old(buffers).inv(),
            old(open_files).spec_count(file@.location) < usize::MAX,
            old(buffers)@.contains_key(file@.location) ==> old(buffers)@[file@.location].can_open(
                flags & 0b11 != O_WRONLY,
                flags & 0b11 == O_WRONLY || flags & 0b11 == O_RDWR,
            ),
        ensures
            final(open_files).inv(),
            final(buffers).inv(),
            r matches Ok(s) && s@ == (OpenFileState {
                file: file@,
                location: file@.location,
                flags,
                offset: 0,
            }),
            final(open_files)@ == old(open_files)@.insert(
                file@.location,
                (old(open_files).spec_count(file@.location) + 1) as usize,
            ),
            final(buffers)@ == if old(buffers)@.contains_key(file@.location) {
                old(buffers)@.insert(
                    file@.location,
                    old(buffers)@[file@.location].opened(
                        flags & 0b11 != O_WRONLY,
                        flags & 0b11 == O_WRONLY || flags & 0b11 == O_RDWR,
                    ),
                )
            } else {
                old(buffers)@
            },
    {
        let location = *file.get_location();
        let s = Self { file, location, flags, curr_off: 0 };

        // Update the open file counter
        open_files.increment(location);

        // If the file points to a buffer, increment the number of open ends
        buffers.increment_open(&location, s.can_read(), s.can_write());

        Ok(s)
    }

    /// Tells whether the file at `loc` is open.
    pub fn is_open(loc: &FileLocation, open_files: &OpenFiles) -> (r: bool)
        ensures
            r == open_files@.contains_key(*loc),
    {
        open_files.find(loc).is_some()
    }

    /// Gives the open file description up.
    ///
    /// One description less is counted as open on the file in `open_files`.
    /// If the file has a buffer in `buffers`, one end less is counted as
    /// open on it: for reading if the description could be read from, and
    /// for writing if it could be written to.
    pub fn close(self, open_files: &mut OpenFiles, buffers: &mut BufferTable) -> (r: EResult<()>)
        requires
            old(open_files).inv(),
            old(buffers).inv(),
            old(buffers)@.contains_key(self@.location) ==> old(buffers)@[self@.location].can_close(
                self@.can_read(),
                self@.can_write(),
            ),
        ensures
            r is Ok,
            final(open_files).inv(),
            final(buffers).inv(),
            final(open_files)@ == if !old(open_files)@.contains_key(self@.location) {
                old(open_files)@
            } else if old(open_files)@[self@.location] == 1 {
                old(open_files)@.remove(self@.location)
            } else {
                old(open_files)@.insert(
                    self@.location,
                    (old(open_files)@[self@.location] - 1) as usize,
                )
            },
            final(buffers)@ == if old(buffers)@.contains_key(self@.location) {
                old(buffers)@.insert(
                    self@.location,
                    old(buffers)@[self@.location].closed(self@.can_read(), self@.can_write()),
                )
            } else {
                old(buffers)@
            },
    {
        // If the file points to a buffer, decrement the number of open ends
        buffers.decrement_open(&self.location, self.can_read(), self.can_write());

        // Update the open file counter
        open_files.decrement(self.location);

        Ok(())
    }

    /// Returns the file.
    pub fn get_file(&self) -> (r: &File)
        ensures
            r@ == self@.file,
    {
        &self.file
    }

    /// Returns the location of the file.
    pub fn get_location(&self) -> (r: &FileLocation)
        ensures
            *r == self@.location,
    {
        &self.location
    }

    /// Returns the flags of the open file description.
    pub fn get_flags(&self) -> (r: i32)
        ensures
            r == self@.flags,
    {
        self.flags
    }

    /// Sets the flags of the open file description.
    ///
    /// The access mode (`O_RDONLY`, `O_WRONLY`, `O_RDWR`) and the flags
    /// that matter only while a file is being opened (`O_CREAT`, `O_EXCL`,
    /// `O_NOCTTY`, `O_TRUNC`) stay as they are.
    pub fn set_flags(&mut self, flags: i32)
        ensures
            final(self)@ == (OpenFileState { flags: old(self)@.flags_set(flags), ..old(self)@ }),
    {
        self.flags = (self.flags & IGNORED_FLAGS) | (flags & !IGNORED_FLAGS);
    }

    /// Tells whether the open file can be read from.
    pub fn can_read(&self) -> (r: bool)
        ensures
            r == self@.can_read(),
    {
        self.flags & 0b11 != O_WRONLY
    }

    /// Tells whether the open file can be written to.
    pub fn can_write(&self) -> (r: bool)
        ensures
            r == self@.can_write(),
    {
        let mode = self.flags & 0b11;
        mode == O_WRONLY || mode == O_RDWR
    }

    /// Tells whether reading and writing set the access time of the file.
    /// `mountpoint` is the mountpoint that the file lies on, if it lies on
    /// one.
    pub fn is_atime_updated(&self, mountpoint: Option<MountPoint>) -> (r: bool)
        ensures
            r == self@.is_atime_updated(mountpoint),
    {
        let Some(mp) = mountpoint else {
            return true;
        };
        mp.get_flags() & FLAG_NOATIME != 0
    }

    /// Returns the current offset in the file.
    pub fn get_offset(&self) -> (r: u64)
        ensures
            r == self@.offset,
    {
        self.curr_off
    }

    /// Sets the current offset in the file.
    pub fn set_offset(&mut self, off: u64)
        ensures
            final(self)@ == (OpenFileState { offset: off, ..old(self)@ }),
    {
        self.curr_off = off;
    }

    /// Performs the request `request` on the file.
    ///
    /// On a regular file, [`FIONREAD`] stores in `count` the number of
    /// bytes from the offset to the end of the file, and returns 0. Every
    /// other request fails with `ENOTTY`, as does every request on a file
    /// of another kind; `count` is then left as it is.
    pub fn ioctl(&mut self, request: u32, count: &mut i32) -> (r: Result<u32, Errno>)
        ensures
            final(self)@ == old(self)@,
            old(self)@.file.content == FileContent::Regular && request == FIONREAD ==> r == Ok::<
                u32,
                Errno,
            >(0) && *final(count) == old(self)@.bytes_left(),
            !(old(self)@.file.content == FileContent::Regular && request == FIONREAD) ==> r == Err::<
                u32,
                Errno,
            >(Errno::ENOTTY) && *final(count) == *old(count),
    {
        match self.file.get_content() {
            FileContent::Regular => {
                if request == FIONREAD {
                    let size = self.file.get_size();
                    let left = if self.curr_off >= size {
                        0
                    } else {
                        size - self.curr_off
                    };
                    *count = #[verifier::truncate]
                    (left as i32);
                    Ok(0)
                } else {
                    Err(Errno::ENOTTY)
                }
            },
            _ => Err(Errno::ENOTTY),
        }
    }

    /// Makes `proc` wait for the events of `mask` on the file.
    ///
    /// The process is put to sleep and added to those that wait on what
    /// stands behind the file: on the buffer at the file's location in
    /// `buffers` if the file is a pipe or a socket, and on the device with the
    /// file's numbers in `devices` if the file is a device. If the file is of
    /// another kind, or if nothing stands behind it, nothing happens.
    pub fn add_waiting_process(
        &mut self,
        proc: &mut Process,
        mask: u32,
        buffers: &mut BufferTable,
        devices: &mut DeviceManager,
    ) -> (r: Result<(), Errno>)
        requires
            old(buffers).inv(),
            old(devices).inv(),
        ensures
            r is Ok,
            final(self)@ == old(self)@,
            final(buffers).inv(),
            final(devices).inv(),
            final(buffers)@ == old(self)@.buffers_awaited(old(buffers)@, old(proc).pid, mask),
            final(devices)@ == old(self)@.devices_awaited(old(devices)@, old(proc).pid, mask),
            *final(proc) == if old(self)@.puts_to_sleep(old(buffers)@, old(devices)@) {
                Process { state: State::Sleeping, ..*old(proc) }
            } else {
                *old(proc)
            },
    {
        match *self.file.get_content() {
            FileContent::Fifo | FileContent::Socket => {
                if let Some(r) = buffers.add_waiting_process(&self.location, proc, mask) {
                    return r;
                }
            },
            FileContent::BlockDevice { major, minor } => {
                let id = DeviceID { type_: DeviceType::Block, major, minor };
                if let Some(r) = devices.add_waiting_process(&id, proc, mask) {
                    return r;
                }
            },
            FileContent::CharDevice { major, minor } => {
                let id = DeviceID { type_: DeviceType::Char, major, minor };
                if let Some(r) = devices.add_waiting_process(&id, proc, mask) {
                    return r;
                }
            },
            _ => {},
        }
        Ok(())
    }

    /// Returns the size of the file in bytes.
    pub fn get_size(&self) -> (r: u64)
        ensures
            r == self@.file.data.len(),
    {
        self.file.get_size()
    }

    /// Reads from the current offset of the file into the beginning of
    /// `buf`, and moves the offset behind what was read. Returns the number
    /// of bytes read, and whether the end of the file was reached.
    ///
    /// `_off` is not used: the offset is the one that [`OpenFile::set_offset`]
    /// sets. `mountpoint` is the mountpoint that the file lies on, if it lies
    /// on one, and `timestamp` the current time: the access time of the file
    /// is set to it, if access times are updated.
    ///
    /// Fails with `EINVAL` if the file cannot be read from, and with `EISDIR`
    /// if it is a directory. Nothing has changed then.
    pub fn read(
        &mut self,
        _off: u64,
        buf: &mut [u8],
        mountpoint: Option<MountPoint>,
        timestamp: Timestamp,
    ) -> (r: Result<(u64, bool), Errno>)
        ensures
            !old(self)@.can_read() ==> {
                &&& r == Err::<(u64, bool), Errno>(Errno::EINVAL)
                &&& final(self)@ == old(self)@
                &&& final(buf)@ == old(buf)@
            },
            old(self)@.can_read() && old(self)@.file.content == FileContent::Directory ==> {
                &&& r == Err::<(u64, bool), Errno>(Errno::EISDIR)
                &&& final(self)@ == old(self)@
                &&& final(buf)@ == old(buf)@
            },
            old(self)@.can_read() && old(self)@.file.content != FileContent::Directory ==> {
                let len = old(self)@.file.read_len(old(self)@.offset as int, old(buf)@.len() as int);
                &&& r == Ok::<(u64, bool), Errno>(
                    (len as u64, old(self)@.offset + len >= old(self)@.file.data.len()),
                )
                &&& final(buf)@ == old(self)@.file.read_bytes(
                    old(self)@.offset as int,
                    old(buf)@.len() as int,
                ) + old(buf)@.skip(len)
                &&& final(self)@ == old(self)@.after_read(
                    old(buf)@.len() as int,
                    mountpoint,
                    timestamp,
                )
            },
    {
        if !self.can_read() {
            return Err(Errno::EINVAL);
        }
        if matches!(self.file.get_content(), FileContent::Directory) {
            return Err(Errno::EISDIR);
        }

        // Update access timestamp
        if self.is_atime_updated(mountpoint) {
            self.file.set_atime(timestamp);
        }

        let (len, eof) = match self.file.read(self.curr_off, buf) {
            Ok(done) => done,
            Err(e) => {
                return Err(e);
            },
        };

        self.curr_off += len;
        Ok((len, eof))
    }

    /// Writes `buf` at the current offset of the file, or at its end if data
    /// is appended, and moves the offset behind what was written. Returns
    /// the number of bytes written.
    ///
    /// `_off` is not used: the offset is the one that [`OpenFile::set_offset`]
    /// sets. `mountpoint` is the mountpoint that the file lies on, if it lies
    /// on one, and `timestamp` the current time: the modification time of
    /// the file is set to it, and the access time too if access times are
    /// updated.
    ///
    /// Fails with `EINVAL` if the file cannot be written to, and with
    /// `EISDIR` if it is a directory; nothing has changed then. Fails with
    /// `EINVAL` also if the file would grow beyond what memory can address;
    /// the timestamps and the offset are set then, and no data is written.
    pub fn write(
        &mut self,
        _off: u64,
        buf: &[u8],
        mountpoint: Option<MountPoint>,
        timestamp: Timestamp,
    ) -> (r: Result<u64, Errno>)
        ensures
            !old(self)@.can_write() ==> {
                &&& r == Err::<u64, Errno>(Errno::EINVAL)
                &&& final(self)@ == old(self)@
            },
            old(self)@.can_write() && old(self)@.file.content == FileContent::Directory ==> {
                &&& r == Err::<u64, Errno>(Errno::EISDIR)
                &&& final(self)@ == old(self)@
            },
            old(self)@.can_write() && old(self)@.file.content != FileContent::Directory ==> {
                &&& final(self)@ == old(self)@.after_write(buf@, mountpoint, timestamp)
                &&& r == if old(self)@.write_offset() + buf@.len() <= usize::MAX {
                    Ok::<u64, Errno>(buf@.len() as u64)
                } else {
                    Err::<u64, Errno>(Errno::EINVAL)
                }
            },
    {
        if !self.can_write() {
            return Err(Errno::EINVAL);
        }
        if matches!(self.file.get_content(), FileContent::Directory) {
            return Err(Errno::EISDIR);
        }

        // Append if enabled
        if self.flags & O_APPEND != 0 {
            self.curr_off = self.file.get_size();
        }

        // Update access timestamps
        if self.is_atime_updated(mountpoint) {
            self.file.set_atime(timestamp);
        }
        self.file.set_mtime(timestamp);

        let len = match self.file.write(self.curr_off, buf) {
            Ok(len) => len,
            Err(e) => {
                return Err(e);
            },
        };

        self.curr_off += len;
        Ok(len)
    }
}

} // verus!
