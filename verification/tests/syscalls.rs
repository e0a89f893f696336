use kernel::cpu::Cpu;
use kernel::device::DeviceManager;
use kernel::errno::AllocError;
use kernel::errno::Errno;
use kernel::file::buffer::Buffer;
use kernel::file::buffer::BufferTable;
use kernel::file::open_file::OpenFile;
use kernel::file::open_file::OpenFiles;
use kernel::file::open_file::O_NONBLOCK;
use kernel::file::open_file::O_RDONLY;
use kernel::file::open_file::O_WRONLY;
use kernel::file::File;
use kernel::file::FileContent;
use kernel::file::FileLocation;
use kernel::limits::IOV_MAX;
use kernel::memory::frame::FrameAllocator;
use kernel::memory::vmem::new;
use kernel::memory::vmem::VMem;
use kernel::process::iovec::IOVec;
use kernel::process::Process;
use kernel::process::State;
use kernel::syscall::_exit::_exit;
use kernel::syscall::munmap::munmap;
use kernel::syscall::readv::do_readv;
use kernel::syscall::readv::read;
use kernel::syscall::readv::readv;
use kernel::syscall::readv::ReadvStep;
use kernel::util::Regs;

fn regs(eax: u32, ebx: u32, ecx: u32) -> Regs {
    Regs { eax, ebx, ecx, edx: 0, esi: 0, edi: 0, ebp: 0 }
}

#[test]
fn munmap_unmaps_the_pages_of_the_range() {
    let mut cpu = Cpu::new();
    let mut frames = FrameAllocator::new(0x10_0000, 4);
    let mut vmem = new(&mut frames).unwrap();
    vmem.map_range(&mut cpu, &mut frames, 0x50_0000, 0x1000, 4, 0).unwrap();
    // From the middle of the second page, one byte more than a page: two pages
    assert_eq!(munmap(&regs(0, 0x2800, 0x1001), &mut vmem, &mut cpu, &mut frames), Ok(0));
    assert_eq!(vmem.translate(0x1000), Some(0x50_0000));
    assert_eq!(vmem.translate(0x2000), None);
    assert_eq!(vmem.translate(0x3000), None);
    assert_eq!(vmem.translate(0x4000), Some(0x50_3000));
    // A length of zero unmaps nothing
    assert_eq!(munmap(&regs(0, 0x1000, 0), &mut vmem, &mut cpu, &mut frames), Ok(0));
    assert_eq!(vmem.translate(0x1000), Some(0x50_0000));
}

#[test]
fn munmap_refuses_kernel_memory() {
    let mut cpu = Cpu::new();
    let mut frames = FrameAllocator::new(0x10_0000, 4);
    let mut vmem = new(&mut frames).unwrap();
    vmem.map(&mut cpu, &mut frames, 0x5000, 0xbfff_f000, 0).unwrap();
    vmem.map(&mut cpu, &mut frames, 0x6000, 0xc000_0000, 0).unwrap();
    let einval = Err(Errno::EINVAL);
    // The range begins in kernel space
    assert_eq!(munmap(&regs(0, 0xc000_0000, 0x1000), &mut vmem, &mut cpu, &mut frames), einval);
    assert_eq!(munmap(&regs(0, 0xc000_0000, 0), &mut vmem, &mut cpu, &mut frames), einval);
    // The range ends in kernel space
    assert_eq!(munmap(&regs(0, 0xbfff_f000, 0x1001), &mut vmem, &mut cpu, &mut frames), einval);
    // The range ends behind the address space
    assert_eq!(munmap(&regs(0, 0x1000, 0xffff_ffff), &mut vmem, &mut cpu, &mut frames), einval);
    assert_eq!(munmap(&regs(0, 0, 0xffff_f001), &mut vmem, &mut cpu, &mut frames), einval);
    assert_eq!(vmem.translate(0xbfff_f000), Some(0x5000));
    assert_eq!(vmem.translate(0xc000_0000), Some(0x6000));
    // The last page of user space can be unmapped
    assert_eq!(munmap(&regs(0, 0xbfff_ffff, 1), &mut vmem, &mut cpu, &mut frames), Ok(0));
    assert_eq!(vmem.translate(0xbfff_f000), None);
    assert_eq!(vmem.translate(0xc000_0000), Some(0x6000));
}

#[test]
fn an_allocation_failure_is_out_of_memory() {
    assert_eq!(Errno::from_alloc(AllocError), Errno::ENOMEM);
}

#[test]
fn exit_makes_the_process_a_zombie() {
    let mut proc = Process::new(5);
    _exit(&regs(3, 0, 0), &mut proc);
    assert_eq!(proc.get_state(), State::Zombie);
    assert_eq!(proc.exit_status, 3);
    assert_eq!(proc.pid, 5);
    let mut other = Process::new(6);
    other.exit(9);
    assert_eq!(other, Process { pid: 6, state: State::Zombie, exit_status: 9 });
}

fn location(inode: u64) -> FileLocation {
    FileLocation::Filesystem { mountpoint_id: 1, inode }
}

fn open(data: &[u8], flags: i32) -> OpenFile {
    let mut file = File::new(location(1), FileContent::Regular, 0);
    file.write(0, data).unwrap();
    OpenFile::new(file, flags, &mut OpenFiles::new(), &mut BufferTable::new()).unwrap()
}

fn chunk(iov_base: usize, iov_len: usize) -> IOVec {
    IOVec { iov_base, iov_len }
}

#[test]
fn read_fills_the_chunks_in_order() {
    let mut f = open(b"hello world", O_RDONLY);
    let mut mem = vec![b'.'; 32];
    let iov = [chunk(4, 3), chunk(10, 0), chunk(0, 5), chunk(20, 4), chunk(1, 2)];
    assert_eq!(read(&mut mem, &iov, 4, &mut f, None, 5), Ok(7));
    assert_eq!(mem, b"....hel.............lo w........".to_vec());
    assert_eq!(f.get_offset(), 7);
    // What is left of the file ends the read before the last chunk
    let iov = [chunk(1, 2), chunk(8, 8), chunk(28, 2)];
    assert_eq!(read(&mut mem, &iov, 3, &mut f, None, 5), Ok(4));
    assert_eq!(mem, b".or.hel.ld..........lo w........".to_vec());
    assert_eq!(f.get_offset(), 11);
    assert_eq!(read(&mut mem, &iov, 3, &mut f, None, 5), Ok(0));
    assert_eq!(read(&mut mem, &iov, 0, &mut f, None, 5), Ok(0));
}

#[test]
fn read_fails_on_what_lies_outside() {
    let mut f = open(b"hello world", O_RDONLY);
    let mut mem = vec![0u8; 8];
    let iov = [chunk(1, 2), chunk(7, 2)];
    // More chunks are asked for than there are
    assert_eq!(read(&mut mem, &iov, 3, &mut f, None, 5), Err(Errno::EFAULT));
    assert_eq!(f.get_offset(), 0);
    // The second chunk ends behind the memory; the first one was read into
    assert_eq!(read(&mut mem, &iov, 2, &mut f, None, 5), Err(Errno::EFAULT));
    assert_eq!(mem, b"\0he\0\0\0\0\0".to_vec());
    assert_eq!(f.get_offset(), 2);
    assert_eq!(read(&mut mem, &[chunk(9, 1)], 1, &mut f, None, 5), Err(Errno::EFAULT));
    assert_eq!(read(&mut mem, &[chunk(usize::MAX, 2)], 1, &mut f, None, 5), Err(Errno::EFAULT));
    assert_eq!(read(&mut mem, &[chunk(7, 1)], 1, &mut f, None, 5), Ok(1));
}

#[test]
fn read_passes_the_error_of_the_file_on() {
    let mut f = open(b"hello", O_WRONLY);
    let mut mem = vec![0u8; 8];
    assert_eq!(read(&mut mem, &[chunk(1, 2)], 1, &mut f, None, 5), Err(Errno::EINVAL));
    let mut d = OpenFile::new(
        File::new(location(2), FileContent::Directory, 0),
        O_RDONLY,
        &mut OpenFiles::new(),
        &mut BufferTable::new(),
    )
    .unwrap();
    assert_eq!(read(&mut mem, &[chunk(1, 2)], 1, &mut d, None, 5), Err(Errno::EISDIR));
    // Without a chunk to read into, the file is not asked
    assert_eq!(read(&mut mem, &[chunk(1, 0), chunk(0, 4)], 2, &mut d, None, 5), Ok(0));
    assert_eq!(mem, vec![0u8; 8]);
}

struct World {
    fds: Vec<Option<OpenFile>>,
    mem: Vec<u8>,
    proc: Process,
    buffers: BufferTable,
    devices: DeviceManager,
}

fn world(data: &[u8], flags: i32) -> World {
    World {
        fds: vec![None, Some(open(data, flags))],
        mem: vec![b'.'; 16],
        proc: Process::new(1),
        buffers: BufferTable::new(),
        devices: DeviceManager::new(),
    }
}

fn attempt(
    w: &mut World,
    fd: i32,
    iov: &[IOVec],
    iovcnt: i32,
    offset: Option<isize>,
) -> Result<ReadvStep, Errno> {
    do_readv(
        fd,
        iov,
        iovcnt,
        offset,
        None,
        &mut w.fds,
        &mut w.mem,
        &mut w.proc,
        &mut w.buffers,
        &mut w.devices,
        None,
        9,
    )
}

#[test]
fn do_readv_reads_at_the_offset_of_the_file() {
    let mut w = world(b"hello world", O_RDONLY);
    let iov = [chunk(2, 3), chunk(8, 4)];
    assert_eq!(attempt(&mut w, 1, &iov, 2, None), Ok(ReadvStep::Done(7)));
    assert_eq!(w.mem, b"..hel...lo w....".to_vec());
    assert_eq!(w.fds[1].as_ref().unwrap().get_offset(), 7);
    assert_eq!(attempt(&mut w, 1, &iov, 1, Some(-1)), Ok(ReadvStep::Done(3)));
    assert_eq!(w.mem, b"..orl...lo w....".to_vec());
    assert_eq!(w.fds[1].as_ref().unwrap().get_offset(), 10);
    assert_eq!(w.proc.get_state(), State::Running);
}

#[test]
fn do_readv_reads_at_a_given_offset_and_puts_the_offset_back() {
    let mut w = world(b"hello world", O_RDONLY);
    w.fds[1].as_mut().unwrap().set_offset(3);
    let iov = [chunk(1, 5)];
    assert_eq!(attempt(&mut w, 1, &iov, 1, Some(6)), Ok(ReadvStep::Done(5)));
    assert_eq!(w.mem, b".world..........".to_vec());
    assert_eq!(w.fds[1].as_ref().unwrap().get_offset(), 3);
    assert_eq!(attempt(&mut w, 1, &iov, 1, Some(0)), Ok(ReadvStep::Done(5)));
    assert_eq!(w.mem, b".hello..........".to_vec());
    assert_eq!(w.fds[1].as_ref().unwrap().get_offset(), 3);
}

#[test]
fn do_readv_checks_its_arguments() {
    let mut w = world(b"hello world", O_RDONLY);
    let iov = [chunk(1, 5)];
    assert_eq!(attempt(&mut w, -1, &iov, 1, None), Err(Errno::EBADF));
    assert_eq!(attempt(&mut w, -1, &iov, -1, None), Err(Errno::EBADF));
    assert_eq!(attempt(&mut w, 1, &iov, -1, None), Err(Errno::EINVAL));
    assert_eq!(attempt(&mut w, 1, &iov, IOV_MAX as i32 + 1, None), Err(Errno::EINVAL));
    assert_eq!(attempt(&mut w, 7, &iov, IOV_MAX as i32 + 1, None), Err(Errno::EINVAL));
    assert_eq!(attempt(&mut w, 0, &iov, 1, None), Err(Errno::EBADF));
    assert_eq!(attempt(&mut w, 2, &iov, 1, None), Err(Errno::EBADF));
    assert_eq!(attempt(&mut w, 2, &iov, 1, Some(-2)), Err(Errno::EBADF));
    assert_eq!(attempt(&mut w, 1, &iov, 1, Some(-2)), Err(Errno::EINVAL));
    assert_eq!(attempt(&mut w, 1, &iov, 1, Some(isize::MIN)), Err(Errno::EINVAL));
    // As many chunks as the limit allows are accepted, but they are not there
    assert_eq!(attempt(&mut w, 1, &iov, IOV_MAX as i32, None), Err(Errno::EFAULT));
    assert_eq!(w.mem, vec![b'.'; 16]);
    assert_eq!(w.fds[1].as_ref().unwrap().get_offset(), 0);
    assert_eq!(w.proc.get_state(), State::Running);
}

#[test]
fn do_readv_leaves_the_offset_where_a_failed_read_left_it() {
    let mut w = world(b"hello world", O_RDONLY);
    w.fds[1].as_mut().unwrap().set_offset(3);
    let iov = [chunk(1, 2), chunk(15, 2)];
    assert_eq!(attempt(&mut w, 1, &iov, 2, Some(6)), Err(Errno::EFAULT));
    assert_eq!(w.mem, b".wo.............".to_vec());
    assert_eq!(w.fds[1].as_ref().unwrap().get_offset(), 8);
}

#[test]
fn do_readv_does_not_block_a_non_blocking_file() {
    let mut w = world(b"", O_RDONLY | O_NONBLOCK);
    assert_eq!(attempt(&mut w, 1, &[chunk(1, 5)], 1, None), Err(Errno::EAGAIN));
    assert_eq!(w.proc.get_state(), State::Running);
    let mut w = world(b"abc", O_RDONLY | O_NONBLOCK);
    assert_eq!(attempt(&mut w, 1, &[chunk(1, 5)], 1, Some(3)), Err(Errno::EAGAIN));
    assert_eq!(attempt(&mut w, 1, &[], 0, None), Err(Errno::EAGAIN));
}

#[test]
fn do_readv_blocks_on_an_empty_pipe() {
    let pipe = FileLocation::Virtual { id: 3 };
    let mut w = world(b"", O_RDONLY);
    w.buffers.insert(pipe, Buffer::new());
    let f = OpenFile::new(
        File::new(pipe, FileContent::Fifo, 0),
        O_RDONLY,
        &mut OpenFiles::new(),
        &mut w.buffers,
    )
    .unwrap();
    w.fds.push(Some(f));
    assert_eq!(attempt(&mut w, 2, &[chunk(1, 5)], 1, None), Ok(ReadvStep::Blocked));
    assert_eq!(w.proc.get_state(), State::Sleeping);
    assert_eq!(w.buffers.get(&pipe).unwrap().waiting_count(), 1);
    // On a regular file there is nothing to wait on: the process stays awake
    let mut w = world(b"", O_RDONLY);
    assert_eq!(attempt(&mut w, 1, &[chunk(1, 5)], 1, None), Ok(ReadvStep::Blocked));
    assert_eq!(w.proc.get_state(), State::Running);
}

#[test]
fn readv_reads_at_the_offset_of_the_file() {
    let mut w = world(b"hello world", O_RDONLY);
    w.fds[1].as_mut().unwrap().set_offset(6);
    let iov = [chunk(2, 3), chunk(8, 4)];
    let r = readv(
        1,
        &iov,
        2,
        &mut w.fds,
        &mut w.mem,
        &mut w.proc,
        &mut w.buffers,
        &mut w.devices,
        None,
        9,
    );
    assert_eq!(r, Ok(ReadvStep::Done(5)));
    assert_eq!(w.mem, b"..wor...ld......".to_vec());
    assert_eq!(w.fds[1].as_ref().unwrap().get_offset(), 11);
    assert_eq!(w.fds[1].as_ref().unwrap().get_file().get_atime(), 9);
}
