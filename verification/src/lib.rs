//! The core of a small kernel: address-space contexts over hardware paging,
//! the protocols around binding them and around the kernel's write lock, and
//! the file and device objects that sit next to them.
//!
//! Everything that a kernel keeps in global or per-core hardware state is an
//! explicit value here: the processor core ([`cpu::Cpu`]), the pool of
//! physical frames ([`memory::frame::FrameAllocator`]), the count of open
//! files ([`file::open_file::OpenFiles`]), the buffers of pipes and sockets
//! ([`file::buffer::BufferTable`]) and the registered devices
//! ([`device::DeviceManager`]). The functions take those values by reference
//! and say in their contracts how they change.
//!
//! - [`memory`] holds the layout of memory, the pool of frames and the
//!   address-space contexts ([`memory::vmem`]).
//! - [`cpu`] holds the state of one processor core.
//! - [`file`] holds files, open file descriptions and the nodes of
//!   kernel-served filesystems.
//! - [`device`] holds devices and the default devices of a system.
//! - [`process`] holds what files and devices need to know of a process.
//! - [`syscall`] holds the system calls that work on the above.

pub mod cpu;
pub mod device;
pub mod errno;
pub mod file;
pub mod limits;
pub mod memory;
pub mod process;
pub mod syscall;
pub mod time;
pub mod util;
