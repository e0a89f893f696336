//! The `readv` system call reads from a file into scattered chunks of the
//! calling process's memory.
//!
//! The memory of the process is a sequence of bytes, in which a chunk is
//! named by the address of its first byte. Address zero names no chunk.

use crate::device::DeviceManager;
use crate::device::DeviceManagerState;
use crate::errno::EResult;
use crate::errno::Errno;
use crate::file::buffer::BufferState;
use crate::file::buffer::BufferTable;
use crate::file::mountpoint::MountPoint;
use crate::file::open_file::OpenFile;
use crate::file::open_file::OpenFileState;
use crate::file::open_file::O_NONBLOCK;
use crate::file::FileContent;
use crate::file::FileLocation;
use crate::limits::IOV_MAX;
use crate::process::iovec::IOVec;
use crate::process::Process;
use crate::process::State;
use crate::time::Timestamp;
use crate::util::io::POLLERR;
use crate::util::io::POLLIN;
use vstd::prelude::*;

verus! {

/// The number of bytes that are read into a chunk when `total` bytes were
/// read before: the length of the chunk, as far as the total stays within
/// what the call can return.
pub open spec fn chunk_len(chunk: IOVec, total: int) -> int {
    if chunk.iov_len <= i32::MAX - total {
        chunk.iov_len as int
    } else {
        i32::MAX - total
    }
}

/// The memory `mem` with `bytes` stored from the address `base` on.
pub open spec fn stored(mem: Seq<u8>, base: int, bytes: Seq<u8>) -> Seq<u8> {
    Seq::new(
        mem.len(),
        |i: int|
            if base <= i < base + bytes.len() {
                bytes[i - base]
            } else {
                mem[i]
            },
    )
}

/// What reading into the chunks of `iov`, one after the other, makes of the
/// open file `file` and of the memory `mem`, and what it returns, when
/// `total` bytes were read before.
///
/// An empty chunk, and a chunk at address zero, is passed over. A chunk that
/// does not lie in the memory ends the read with `EFAULT`, and a chunk that
/// the file cannot be read into with the error of that read. The read ends
/// also where the end of the file is reached.
pub open spec fn read_chunks(
    file: OpenFileState,
    mem: Seq<u8>,
    iov: Seq<IOVec>,
    total: int,
    mountpoint: Option<MountPoint>,
    timestamp: Timestamp,
) -> (OpenFileState, Seq<u8>, Result<i32, Errno>)
    decreases iov.len(),
{
    if iov.len() == 0 {
        (file, mem, Ok(total as i32))
    } else {
        let chunk = iov.first();
        let l = chunk_len(chunk, total);
        if chunk.iov_len == 0 || chunk.iov_base == 0 {
            read_chunks(file, mem, iov.drop_first(), total, mountpoint, timestamp)
        } else if chunk.iov_base + l > mem.len() {
            (file, mem, Err(Errno::EFAULT))
        } else if !file.can_read() {
            (file, mem, Err(Errno::EINVAL))
        } else if file.file.content == FileContent::Directory {
            (file, mem, Err(Errno::EISDIR))
        } else {
            let len = file.file.read_len(file.offset as int, l);
            let after = file.after_read(l, mountpoint, timestamp);
            let filled = stored(
                mem,
                chunk.iov_base as int,
                file.file.read_bytes(file.offset as int, l),
            );
            if file.offset + len >= file.file.data.len() {
                (after, filled, Ok((total + len) as i32))
            } else {
                read_chunks(after, filled, iov.drop_first(), total + len, mountpoint, timestamp)
            }
        }
    }
}

/// What reading into the first `iovcnt` chunks of `iov` makes of the open
/// file `file` and of the memory `mem`, and what it returns. It fails with
/// `EFAULT`, and changes nothing, if `iov` holds fewer chunks.
pub open spec fn read_result(
    file: OpenFileState,
    mem: Seq<u8>,
    iov: Seq<IOVec>,
    iovcnt: int,
    mountpoint: Option<MountPoint>,
    timestamp: Timestamp,
) -> (OpenFileState, Seq<u8>, Result<i32, Errno>) {
    if iovcnt > iov.len() {
        (file, mem, Err(Errno::EFAULT))
    } else {
        read_chunks(file, mem, iov.take(iovcnt), 0, mountpoint, timestamp)
    }
}

/// Reads from `open_file` into the first `iovcnt` chunks of `iov`, which lie
/// in the memory `mem`. Returns the number of bytes read.
///
/// Arguments:
/// - `mem` is the memory of the current process
/// - `iov` is the set of chunks
/// - `iovcnt` is the number of chunks in `iov`
/// - `open_file` is the file to read from
/// - `mountpoint` is the mountpoint that the file lies on, if it lies on one
/// - `timestamp` is the current time
///
/// Fails with `EFAULT`, and changes nothing, if `iov` holds fewer than
/// `iovcnt` chunks. Else the chunks are read into as [`read_chunks`] says.
pub fn read(
    mem: &mut Vec<u8>,
    iov: &[IOVec],
    iovcnt: usize,
    open_file: &mut OpenFile,
    mountpoint: Option<MountPoint>,
    timestamp: Timestamp,
) -> (r: EResult<i32>)
    ensures
        (final(open_file)@, final(mem)@, r) == read_result(
            old(open_file)@,
            old(mem)@,
            iov@,
            iovcnt as int,
            mountpoint,
            timestamp,
        ),
        r matches Ok(len) ==> len >= 0,
{
    if iovcnt > iov.len() {
        return Err(Errno::EFAULT);
    }
    let ghost chunks = iov@.take(iovcnt as int);
    let ghost expected = read_chunks(open_file@, mem@, chunks, 0, mountpoint, timestamp);
    let mut total_len: usize = 0;
    let mut i: usize = 0;
    assert(chunks.skip(0) =~= chunks);
    while i < iovcnt
        invariant
            i <= iovcnt <= iov@.len(),
            chunks == iov@.take(iovcnt as int),
            total_len <= i32::MAX,
            expected == read_chunks(old(open_file)@, old(mem)@, chunks, 0, mountpoint, timestamp),
            read_chunks(
                open_file@,
                mem@,
                chunks.skip(i as int),
                total_len as int,
                mountpoint,
                timestamp,
            ) == expected,
        decreases iovcnt - i,
    {
        let chunk = iov[i];
        proof {
            assert(chunks.skip(i as int).first() == chunk);
            assert(chunks.skip(i as int).drop_first() =~= chunks.skip(i + 1));
        }
        i += 1;

        // Ignore zero entry
        if chunk.iov_len == 0 {
            continue;
        }
        // The size to read. This is limited to avoid an overflow on the total length
        let limit = i32::MAX as usize - total_len;
        let l = if chunk.iov_len <= limit {
            chunk.iov_len
        } else {
            limit
        };
        if chunk.iov_base == 0 {
            continue;
        }
        if l > mem.len() || chunk.iov_base > mem.len() - l {
            return Err(Errno::EFAULT);
        }
        let mut slice: Vec<u8> = vec![0u8; l];
        // The offset is ignored
        let ghost file_before = open_file@;
        let ghost mem_before = mem@;
        let (len, eof) = match open_file.read(0, slice.as_mut_slice(), mountpoint, timestamp) {
            Ok(done) => done,
            Err(e) => {
                return Err(e);
            },
        };
        let count = len as usize;
        let mut k: usize = 0;
        while k < count
            invariant
                k <= count <= l,
                slice@.len() == l,
                mem@.len() <= usize::MAX,
                chunk.iov_base + l <= mem@.len(),
                mem@.len() == mem_before.len(),
                forall|j: int| 0 <= j < chunk.iov_base ==> mem@[j] == mem_before[j],
                forall|j: int| chunk.iov_base <= j < chunk.iov_base + k ==> mem@[j] == slice@[j
                    - chunk.iov_base],
                forall|j: int| chunk.iov_base + k <= j < mem@.len() ==> mem@[j] == mem_before[j],
            decreases count - k,
        {
            mem[chunk.iov_base + k] = slice[k];
            k += 1;
        }
        assert(mem@ =~= stored(
            mem_before,
            chunk.iov_base as int,
            file_before.file.read_bytes(file_before.offset as int, l as int),
        ));
        total_len += count;
        if eof {
            return Ok(total_len as i32);
        }
    }
    Ok(total_len as i32)
}

/// How one attempt of a scattered read ended.
#[derive(Clone, Copy, Debug, PartialEq, Eq, Structural)]
pub enum ReadvStep {
    /// The given number of bytes was read.
    Done(i32),
    /// Nothing could be read yet. The calling process was made to wait for
    /// the file, and the read is to be attempted again when it wakes.
    Blocked,
}

/// The offset at which a scattered read with the argument `offset` begins,
/// where `current` is the offset of the open file, and whether the read
/// moves the offset of the open file. `None` where the argument is not
/// valid: it is below -1.
pub open spec fn readv_offset(offset: Option<isize>, current: u64) -> Option<(u64, bool)> {
    match offset {
        Some(o) if o >= 0 => Some((o as u64, false)),
        Some(o) if o == -1 => Some((current, true)),
        Some(_) => None,
        None => Some((current, true)),
    }
}

/// What one attempt of a scattered read makes of the open file `file` and
/// of the memory `mem`, and the number of bytes read, where the read begins
/// at `start` and moves the offset of the file if `update` holds.
///
/// Where the read fails, the offset of the file stays where the read left
/// it. Where it succeeds and is not to move the offset, the offset is put
/// back.
pub open spec fn readv_attempt(
    file: OpenFileState,
    mem: Seq<u8>,
    iov: Seq<IOVec>,
    iovcnt: int,
    start: u64,
    update: bool,
    mountpoint: Option<MountPoint>,
    timestamp: Timestamp,
) -> (OpenFileState, Seq<u8>, Result<i32, Errno>) {
    let done = read_result(
        OpenFileState { offset: start, ..file },
        mem,
        iov,
        iovcnt,
        mountpoint,
        timestamp,
    );
    if done.2 is Ok && !update {
        (OpenFileState { offset: file.offset, ..done.0 }, done.1, done.2)
    } else {
        done
    }
}

/// Whether the arguments of a scattered read name an open file and a valid
/// number of chunks and offset; and if not, the error that the read fails
/// with.
pub open spec fn readv_check(
    fd: i32,
    iovcnt: i32,
    offset: Option<isize>,
    fds: Seq<Option<OpenFile>>,
) -> Result<(), Errno> {
    if fd < 0 {
        Err(Errno::EBADF)
    } else if iovcnt < 0 || iovcnt > IOV_MAX {
        Err(Errno::EINVAL)
    } else if fd >= fds.len() || fds[fd as int] is None {
        Err(Errno::EBADF)
    } else if readv_offset(offset, 0) is None {
        Err(Errno::EINVAL)
    } else {
        Ok(())
    }
}

/// What a scattered read works on.
pub struct ReadvWorld {
    /// The open files of the calling process, by file descriptor.
    pub fds: Seq<Option<OpenFile>>,
    /// The memory of the calling process.
    pub mem: Seq<u8>,
    /// The calling process.
    pub proc: Process,
    /// The buffers of the system.
    pub buffers: Map<FileLocation, BufferState>,
    /// The devices of the system.
    pub devices: DeviceManagerState,
}

/// Whether one attempt of a scattered read with the given arguments, made
/// on `before`, leaves `after` and returns `r`.
pub open spec fn readv_outcome(
    fd: i32,
    iov: Seq<IOVec>,
    iovcnt: i32,
    offset: Option<isize>,
    mountpoint: Option<MountPoint>,
    timestamp: Timestamp,
    before: ReadvWorld,
    after: ReadvWorld,
    r: Result<ReadvStep, Errno>,
) -> bool {
    match readv_check(fd, iovcnt, offset, before.fds) {
        Err(e) => {
            &&& r == Err::<ReadvStep, Errno>(e)
            &&& after.fds == before.fds
            &&& after.mem == before.mem
            &&& after.proc == before.proc
            &&& after.buffers == before.buffers
            &&& after.devices == before.devices
        },
        Ok(_) => {
            let file = before.fds[fd as int]->0@;
            let (start, update) = readv_offset(offset, file.offset)->0;
            let attempt = readv_attempt(
                file,
                before.mem,
                iov,
                iovcnt as int,
                start,
                update,
                mountpoint,
                timestamp,
            );
            let blocks = attempt.2 == Ok::<i32, Errno>(0) && file.flags & O_NONBLOCK == 0;
            &&& after.fds.len() == before.fds.len()
            &&& forall|other: int|
                0 <= other < before.fds.len() && other != fd ==> after.fds[other]
                    == before.fds[other]
            &&& after.fds[fd as int] matches Some(open_file) && open_file@ == attempt.0
            &&& after.mem == attempt.1
            &&& r == match attempt.2 {
                Err(e) => Err::<ReadvStep, Errno>(e),
                Ok(len) => if len > 0 {
                    Ok::<ReadvStep, Errno>(ReadvStep::Done(len))
                } else if file.flags & O_NONBLOCK != 0 {
                    Err::<ReadvStep, Errno>(Errno::EAGAIN)
                } else {
                    Ok::<ReadvStep, Errno>(ReadvStep::Blocked)
                },
            }
            &&& after.buffers == if blocks {
                file.buffers_awaited(before.buffers, before.proc.pid, POLLIN | POLLERR)
            } else {
                before.buffers
            }
            &&& after.devices == if blocks {
                file.devices_awaited(before.devices, before.proc.pid, POLLIN | POLLERR)
            } else {
                before.devices
            }
            &&& after.proc == if blocks && file.puts_to_sleep(before.buffers, before.devices) {
                Process { state: State::Sleeping, ..before.proc }
            } else {
                before.proc
            }
        },
    }
}

/// Attempts the scattered read once.
///
/// Arguments:
/// - `fd` is the file descriptor
/// - `iov` holds the chunks to read into
/// - `iovcnt` is the number of chunks
/// - `offset` is the offset in the file at which the read begins; without
///   one, or with -1, the read begins at the offset of the open file and
///   moves it
/// - `_flags` is the set of flags, which is not used
/// - `fds` holds the open files of the calling process, by file descriptor
/// - `mem` is the memory of the calling process
/// - `proc` is the calling process
/// - `buffers` and `devices` are the buffers and devices of the system
/// - `mountpoint` is the mountpoint that the file lies on, if it lies on one
/// - `timestamp` is the current time
///
/// Fails with `EBADF` if `fd` is negative or names no open file, and with
/// `EINVAL` if `iovcnt` is negative or above [`IOV_MAX`], or if `offset` is
/// below -1. Nothing has changed then.
///
/// Else the file is read into the chunks. If that fails, the call fails
/// with the same error. If bytes were read, their number is returned. If
/// none was read and the file does not block, the call fails with `EAGAIN`.
/// If none was read and the file blocks, the calling process is made to
/// wait for the file, and [`ReadvStep::Blocked`] is returned.
pub fn do_readv(
    fd: i32,
    iov: &[IOVec],
    iovcnt: i32,
    offset: Option<isize>,
    _flags: Option<i32>,
    fds: &mut Vec<Option<OpenFile>>,
    mem: &mut Vec<u8>,
    proc: &mut Process,
    buffers: &mut BufferTable,
    devices: &mut DeviceManager,
    mountpoint: Option<MountPoint>,
    timestamp: Timestamp,
) -> (r: Result<ReadvStep, Errno>)
    requires
        old(buffers).inv(),
        old(devices).inv(),
    ensures
        final(buffers).inv(),
        final(devices).inv(),
        readv_outcome(
            fd,
            iov@,
            iovcnt,
            offset,
            mountpoint,
            timestamp,
            ReadvWorld {
                fds: old(fds)@,
                mem: old(mem)@,
                proc: *old(proc),
                buffers: old(buffers)@,
                devices: old(devices)@,
            },
            ReadvWorld {
                fds: final(fds)@,
                mem: final(mem)@,
                proc: *final(proc),
                buffers: final(buffers)@,
                devices: final(devices)@,
            },
            r,
        ),
{
    if fd < 0 {
        return Err(Errno::EBADF);
    }
    if iovcnt < 0 || iovcnt as usize > IOV_MAX {
        return Err(Errno::EINVAL);
    }
    if fd as usize >= fds.len() {
        return Err(Errno::EBADF);
    }
    let current = match &fds[fd as usize] {
        Some(open_file) => open_file.get_offset(),
        None => {
            return Err(Errno::EBADF);
        },
    };
    let (start_off, update_off) = match offset {
        Some(o) => if o >= 0 {
            (o as u64, false)
        } else if o == -1 {
            (current, true)
        } else {
            return Err(Errno::EINVAL);
        },
        None => (current, true),
    };
    let ghost file = fds@[fd as int]->0@;
    match &mut fds[fd as usize] {
        None => Err(Errno::EBADF),
        Some(open_file) => {
            let flags = open_file.get_flags();

            // Change the offset temporarily
            let prev_off = open_file.get_offset();
            open_file.set_offset(start_off);

            proof {
                lemma_read_keeps_file(
                    OpenFileState { offset: start_off, ..file },
                    mem@,
                    iov@,
                    iovcnt as int,
                    mountpoint,
                    timestamp,
                );
            }
            let len = match read(mem, iov, iovcnt as usize, open_file, mountpoint, timestamp) {
                Ok(len) => len,
                Err(e) => {
                    return Err(e);
                },
            };

            // Restore previous offset
            if !update_off {
                open_file.set_offset(prev_off);
            }
            if len > 0 {
                return Ok(ReadvStep::Done(len));
            }
            if flags & O_NONBLOCK != 0 {
                // The file descriptor is non blocking
                return Err(Errno::EAGAIN);
            }
            // Block on file
            match open_file.add_waiting_process(proc, POLLIN | POLLERR, buffers, devices) {
                Ok(()) => Ok(ReadvStep::Blocked),
                Err(e) => Err(e),
            }
        },
    }
}

/// Reading into chunks leaves the location, the kind and the flags of the
/// open file as they are.
pub proof fn lemma_read_chunks_keeps_file(
    file: OpenFileState,
    mem: Seq<u8>,
    iov: Seq<IOVec>,
    total: int,
    mountpoint: Option<MountPoint>,
    timestamp: Timestamp,
)
    ensures
        ({
            let after = read_chunks(file, mem, iov, total, mountpoint, timestamp).0;
            &&& after.location == file.location
            &&& after.flags == file.flags
            &&& after.file.content == file.file.content
            &&& after.file.location == file.file.location
        }),
    decreases iov.len(),
{
    if iov.len() > 0 {
        let chunk = iov.first();
        let l = chunk_len(chunk, total);
        lemma_read_chunks_keeps_file(file, mem, iov.drop_first(), total, mountpoint, timestamp);
        let after = file.after_read(l, mountpoint, timestamp);
        let filled = stored(
            mem,
            chunk.iov_base as int,
            file.file.read_bytes(file.offset as int, l),
        );
        lemma_read_chunks_keeps_file(
            after,
            filled,
            iov.drop_first(),
            total + file.file.read_len(file.offset as int, l),
            mountpoint,
            timestamp,
        );
    }
}

/// Reading into the first chunks of a set leaves the location, the kind and
/// the flags of the open file as they are.
pub proof fn lemma_read_keeps_file(
    file: OpenFileState,
    mem: Seq<u8>,
    iov: Seq<IOVec>,
    iovcnt: int,
    mountpoint: Option<MountPoint>,
    timestamp: Timestamp,
)
    ensures
        ({
            let after = read_result(file, mem, iov, iovcnt, mountpoint, timestamp).0;
            &&& after.location == file.location
            &&& after.flags == file.flags
            &&& after.file.content == file.file.content
            &&& after.file.location == file.file.location
        }),
{
    if iovcnt <= iov.len() {
        lemma_read_chunks_keeps_file(file, mem, iov.take(iovcnt), 0, mountpoint, timestamp);
    }
}

/// Attempts once to read from the file descriptor `fd` into the first
/// `iovcnt` chunks of `iov`, beginning at the offset of the open file. See
/// [`do_readv`].
pub fn readv(
    fd: i32,
    iov: &[IOVec],
    iovcnt: i32,
    fds: &mut Vec<Option<OpenFile>>,
    mem: &mut Vec<u8>,
    proc: &mut Process,
    buffers: &mut BufferTable,
    devices: &mut DeviceManager,
    mountpoint: Option<MountPoint>,
    timestamp: Timestamp,
) -> (r: Result<ReadvStep, Errno>)
    requires
        old(buffers).inv(),
        old(devices).inv(),
    ensures
        final(buffers).inv(),
        final(devices).inv(),
        readv_outcome(
            fd,
            iov@,
            iovcnt,
            None,
            mountpoint,
            timestamp,
            ReadvWorld {
                fds: old(fds)@,
                mem: old(mem)@,
                proc: *old(proc),
                buffers: old(buffers)@,
                devices: old(devices)@,
            },
            ReadvWorld {
                fds: final(fds)@,
                mem: final(mem)@,
                proc: *final(proc),
                buffers: final(buffers)@,
                devices: final(devices)@,
            },
            r,
        ),
{
    do_readv(fd, iov, iovcnt, None, None, fds, mem, proc, buffers, devices, mountpoint, timestamp)
}

} // verus!
