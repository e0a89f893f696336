//! The devices that every system has: the null device, the zero device, the
//! kernel's log and the terminal of the current process.

use crate::device::Device;
use crate::device::DeviceHandle;
use crate::device::DeviceID;
use crate::device::DeviceManager;
use crate::device::DeviceManagerState;
use crate::device::DeviceState;
use crate::device::DeviceType;
use crate::errno::Errno;
use vstd::prelude::*;

verus! {

/// The handle of the device that does nothing: it is always empty, and
/// swallows what is written to it.
#[derive(Clone, Copy, Debug, PartialEq, Eq, Structural)]
pub struct NullDeviceHandle {}

impl NullDeviceHandle {
    /// Returns the size of the device, which is zero.
    pub fn get_size(&self) -> (r: u64)
        ensures
            r == 0,
    {
        0
    }

    /// Reads nothing: leaves `_buff` as it is, and returns 0.
    pub fn read(&mut self, _offset: u64, _buff: &mut [u8]) -> (r: Result<u64, Errno>)
        ensures
            r == Ok::<u64, Errno>(0),
            final(_buff)@ == old(_buff)@,
    {
        Ok(0)
    }

    /// Swallows `buff`, and returns its length.
    pub fn write(&mut self, _offset: u64, buff: &[u8]) -> (r: Result<u64, Errno>)
        ensures
            r == Ok::<u64, Errno>(buff@.len() as u64),
    {
        Ok(buff.len() as u64)
    }
}

/// The handle of the device that gives zeros, and swallows what is written
/// to it.
#[derive(Clone, Copy, Debug, PartialEq, Eq, Structural)]
pub struct ZeroDeviceHandle {}

impl ZeroDeviceHandle {
    /// Returns the size of the device, which is zero.
    pub fn get_size(&self) -> (r: u64)
        ensures
            r == 0,
    {
        0
    }

    /// Fills `buff` with zeros, and returns its length.
    pub fn read(&mut self, _offset: u64, buff: &mut [u8]) -> (r: Result<u64, Errno>)
        ensures
            r == Ok::<u64, Errno>(old(buff)@.len() as u64),
            final(buff)@ == Seq::new(old(buff)@.len(), |i: int| 0u8),
    {
        let mut i: usize = 0;
        while i < buff.len()
            invariant
                i <= buff@.len(),
                buff@.len() == old(buff)@.len(),
                forall|k: int| 0 <= k < i ==> buff@[k] == 0,
            decreases buff@.len() - i,
        {
            buff[i] = 0;
            i += 1;
        }
        assert(buff@ =~= Seq::new(old(buff)@.len(), |i: int| 0u8));
        Ok(buff.len() as u64)
    }

    /// Swallows `buff`, and returns its length.
    pub fn write(&mut self, _offset: u64, buff: &[u8]) -> (r: Result<u64, Errno>)
        ensures
            r == Ok::<u64, Errno>(buff@.len() as u64),
    {
        Ok(buff.len() as u64)
    }
}

/// The handle of the kernel's log. It takes the content of the log from its
/// caller.
#[derive(Clone, Copy, Debug, PartialEq, Eq, Structural)]
pub struct KMsgDeviceHandle {}

impl KMsgDeviceHandle {
    /// Returns the size of the device: the length of the log `log`.
    pub fn get_size(&self, log: &[u8]) -> (r: u64)
        ensures
            r == log@.len(),
    {
        log.len() as u64
    }

    /// Reads the beginning of the log `log` into `buff`, which it fills, and
    /// returns the number of bytes read.
    ///
    /// The log is read from its beginning only, and into a buffer that is
    /// not longer than the log.
    pub fn read(&mut self, offset: u64, buff: &mut [u8], log: &[u8]) -> (r: Result<u64, Errno>)
        requires
            offset == 0,
            old(buff)@.len() <= log@.len(),
        ensures
            r == Ok::<u64, Errno>(old(buff)@.len() as u64),
            final(buff)@ == log@.take(old(buff)@.len() as int),
    {
        let size = log.len();
        let len = if size <= buff.len() {
            size
        } else {
            buff.len()
        } - offset as usize;
        let start = offset as usize;
        let mut i: usize = 0;
        while i < len
            invariant
                i <= len,
                start == 0,
                len == buff@.len(),
                buff@.len() == old(buff)@.len(),
                len <= log@.len(),
                forall|k: int| 0 <= k < i ==> buff@[k] == log@[k],
            decreases len - i,
        {
            buff[i] = log[start + i];
            i += 1;
        }
        assert(buff@ =~= log@.take(old(buff)@.len() as int));
        Ok(len as u64)
    }

    /// Swallows `buff`, and returns its length.
    pub fn write(&mut self, _offset: u64, buff: &[u8]) -> (r: Result<u64, Errno>)
        ensures
            r == Ok::<u64, Errno>(buff@.len() as u64),
    {
        Ok(buff.len() as u64)
    }
}

/// The handle of the terminal of the current process. It takes the terminal
/// from its caller, as the bytes that were written to it.
#[derive(Clone, Copy, Debug, PartialEq, Eq, Structural)]
pub struct CurrentTTYDeviceHandle {}

impl CurrentTTYDeviceHandle {
    /// Returns the size of the device, which is zero.
    pub fn get_size(&self) -> (r: u64)
        ensures
            r == 0,
    {
        0
    }

    /// Writes `buff` to the terminal `tty`, and returns its length.
    pub fn write(&mut self, _offset: u64, buff: &[u8], tty: &mut Vec<u8>) -> (r: Result<
        u64,
        Errno,
    >)
        ensures
            r == Ok::<u64, Errno>(buff@.len() as u64),
            final(tty)@ == old(tty)@ + buff@,
    {
        let mut i: usize = 0;
        while i < buff.len()
            invariant
                i <= buff@.len(),
                tty@ == old(tty)@ + buff@.take(i as int),
            decreases buff@.len() - i,
        {
            tty.push(buff[i]);
            assert(tty@ =~= old(tty)@ + buff@.take(i + 1));
            i += 1;
        }
        assert(buff@.take(buff@.len() as int) =~= buff@);
        Ok(buff.len() as u64)
    }
}

/// The null device, as it is registered.
pub open spec fn null_device() -> DeviceState {
    DeviceState {
        id: DeviceID { type_: DeviceType::Char, major: 1, minor: 3 },
        path: "/dev/null"@,
        mode: 0o666,
        handle: DeviceHandle::Null(NullDeviceHandle {  }),
        has_file: false,
        waiting: Seq::empty(),
    }
}

/// The zero device, as it is registered.
pub open spec fn zero_device() -> DeviceState {
    DeviceState {
        id: DeviceID { type_: DeviceType::Char, major: 1, minor: 5 },
        path: "/dev/zero"@,
        mode: 0o666,
        handle: DeviceHandle::Zero(ZeroDeviceHandle {  }),
        has_file: false,
        waiting: Seq::empty(),
    }
}

/// The device of the kernel's log, as it is registered.
pub open spec fn kmsg_device() -> DeviceState {
    DeviceState {
        id: DeviceID { type_: DeviceType::Char, major: 1, minor: 11 },
        path: "/dev/kmsg"@,
        mode: 0o600,
        handle: DeviceHandle::KMsg(KMsgDeviceHandle {  }),
        has_file: false,
        waiting: Seq::empty(),
    }
}

/// The device of the current terminal, as it is registered.
pub open spec fn current_tty_device() -> DeviceState {
    DeviceState {
        id: DeviceID { type_: DeviceType::Char, major: 5, minor: 0 },
        path: "/dev/tty"@,
        mode: 0o666,
        handle: DeviceHandle::CurrentTTY(CurrentTTYDeviceHandle {  }),
        has_file: true,
        waiting: Seq::empty(),
    }
}

/// A manager in the state `s` after the devices of the first major number
/// were registered.
pub open spec fn with_first_major(s: DeviceManagerState) -> DeviceManagerState {
    s.with_major(DeviceType::Char, 1).with_device(null_device()).with_device(
        zero_device(),
    ).with_device(kmsg_device())
}

/// A manager in the state `s` after all default devices were registered.
pub open spec fn with_default_devices(s: DeviceManagerState) -> DeviceManagerState {
    with_first_major(s).with_major(DeviceType::Char, 5).with_device(current_tty_device())
}

/// Creates the default devices, and registers them with `manager`.
///
/// Takes the major number 1 of the character devices, and registers under it
/// the null device, the zero device and the kernel's log. Then takes the
/// major number 5, and registers under it the current terminal, with its
/// file asked for.
///
/// Fails with `ENOMEM` where a major number is taken already. Nothing is
/// undone then: if it is the second number, the first one stays taken and its
/// devices stay registered.
pub fn create(manager: &mut DeviceManager) -> (r: Result<(), Errno>)
    requires
        old(manager).inv(),
    ensures
        final(manager).inv(),
        old(manager)@.majors.contains((DeviceType::Char, 1u32)) ==> {
            &&& r == Err::<(), Errno>(Errno::ENOMEM)
            &&& final(manager)@ == old(manager)@
        },
        !old(manager)@.majors.contains((DeviceType::Char, 1u32)) && old(manager)@.majors.contains(
            (DeviceType::Char, 5u32),
        ) ==> {
            &&& r == Err::<(), Errno>(Errno::ENOMEM)
            &&& final(manager)@ == with_first_major(old(manager)@)
        },
        !old(manager)@.majors.contains((DeviceType::Char, 1u32)) && !old(
            manager,
        )@.majors.contains((DeviceType::Char, 5u32)) ==> {
            &&& r is Ok
            &&& final(manager)@ == with_default_devices(old(manager)@)
        },
{
    match manager.alloc_major(DeviceType::Char, 1) {
        Ok(()) => {},
        Err(e) => {
            return Err(e);
        },
    }

    let null_device = Device::new(
        1,
        3,
        "/dev/null",
        0o666,
        DeviceType::Char,
        DeviceHandle::Null(NullDeviceHandle {  }),
    );
    match manager.register_device(null_device) {
        Ok(()) => {},
        Err(e) => {
            return Err(e);
        },
    }

    let zero_device = Device::new(
        1,
        5,
        "/dev/zero",
        0o666,
        DeviceType::Char,
        DeviceHandle::Zero(ZeroDeviceHandle {  }),
    );
    match manager.register_device(zero_device) {
        Ok(()) => {},
        Err(e) => {
            return Err(e);
        },
    }

    let kmsg_device = Device::new(
        1,
        11,
        "/dev/kmsg",
        0o600,
        DeviceType::Char,
        DeviceHandle::KMsg(KMsgDeviceHandle {  }),
    );
    match manager.register_device(kmsg_device) {
        Ok(()) => {},
        Err(e) => {
            return Err(e);
        },
    }

    match manager.alloc_major(DeviceType::Char, 5) {
        Ok(()) => {},
        Err(e) => {
            return Err(e);
        },
    }

    let mut current_tty_device = Device::new(
        5,
        0,
        "/dev/tty",
        0o666,
        DeviceType::Char,
        DeviceHandle::CurrentTTY(CurrentTTYDeviceHandle {  }),
    );
    current_tty_device.create_file();
    manager.register_device(current_tty_device)
}

} // verus!
