//! Devices: what the files under `/dev` stand for.
//!
//! A [`Device`] is known by its type and its major and minor numbers. The
//! devices of the system are registered with a [`DeviceManager`], which also
//! keeps track of the major numbers that are taken.

pub mod default;

use crate::device::default::CurrentTTYDeviceHandle;
use crate::device::default::KMsgDeviceHandle;
use crate::device::default::NullDeviceHandle;
use crate::device::default::ZeroDeviceHandle;
use crate::errno::Errno;
use crate::file::Mode;
use crate::process::Pid;
use crate::process::Process;
use crate::process::State;
use crate::util::assoc::assoc_map;
use crate::util::assoc::distinct_keys;
use crate::util::assoc::has_key;
use crate::util::assoc::lemma_assoc_keys;
use crate::util::assoc::lemma_assoc_push;
use crate::util::assoc::lemma_assoc_update;
use crate::util::assoc::lemma_assoc_value;
use crate::util::io::BlockHandler;
use vstd::prelude::*;

verus! {

/// The type of a device.
#[derive(Clone, Copy, Debug, PartialEq, Eq, Structural)]
pub enum DeviceType {
    /// A device that is read and written in blocks.
    Block,
    /// A device that is read and written byte by byte.
    Char,
}

/// The identifier of a device.
#[derive(Clone, Copy, Debug, PartialEq, Eq, Structural)]
pub struct DeviceID {
    /// The type of the device.
    pub type_: DeviceType,
    /// The major number.
    pub major: u32,
    /// The minor number.
    pub minor: u32,
}

/// What serves the reads and writes of a device.
#[derive(Clone, Copy, Debug, PartialEq, Eq, Structural)]
pub enum DeviceHandle {
    /// The device that does nothing.
    Null(NullDeviceHandle),
    /// The device that gives zeros.
    Zero(ZeroDeviceHandle),
    /// The kernel's log.
    KMsg(KMsgDeviceHandle),
    /// The terminal of the current process.
    CurrentTTY(CurrentTTYDeviceHandle),
}

/// A device.
pub struct Device {
    id: DeviceID,
    path: &'static str,
    mode: Mode,
    handle: DeviceHandle,
    has_file: bool,
    block_handler: BlockHandler,
}

/// What a device amounts to.
pub struct DeviceState {
    /// The identifier of the device.
    pub id: DeviceID,
    /// The path of the device's file.
    pub path: Seq<char>,
    /// The permissions of the device's file.
    pub mode: Mode,
    /// What serves the reads and writes of the device.
    pub handle: DeviceHandle,
    /// Whether the device's file was asked for.
    pub has_file: bool,
    /// The processes that wait for the device, each with the events it
    /// waits for.
    pub waiting: Seq<(Pid, u32)>,
}

impl DeviceState {
    /// This state with the process `pid` waiting for the events of `mask`.
    pub open spec fn awaited(self, pid: Pid, mask: u32) -> DeviceState {
        DeviceState { waiting: self.waiting.push((pid, mask)), ..self }
    }
}

impl View for Device {
    type V = DeviceState;

    closed spec fn view(&self) -> DeviceState {
        DeviceState {
            id: self.id,
            path: self.path@,
            mode: self.mode,
            handle: self.handle,
            has_file: self.has_file,
            waiting: self.block_handler@,
        }
    }
}

impl Device {
    /// Creates a device with the given numbers, the path and permissions of
    /// its file, its type and its handle. No file is asked for yet, and no
    /// process waits for the device.
    pub fn new(
        major: u32,
        minor: u32,
        path: &'static str,
        mode: Mode,
        type_: DeviceType,
        handle: DeviceHandle,
    ) -> (r: Device)
        ensures
            r@ == (DeviceState {
                id: DeviceID { type_, major, minor },
                path: path@,
                mode,
                handle,
                has_file: false,
                waiting: Seq::empty(),
            }),
    {
        Device {
            id: DeviceID { type_, major, minor },
            path,
            mode,
            handle,
            has_file: false,
            block_handler: BlockHandler::new(),
        }
    }

    /// Returns the identifier of the device.
    pub fn get_id(&self) -> (r: DeviceID)
        ensures
            r == self@.id,
    {
        self.id
    }

    /// Returns the path of the device's file.
    pub fn get_path(&self) -> (r: &'static str)
        ensures
            r@ == self@.path,
    {
        self.path
    }

    /// Returns the permissions of the device's file.
    pub fn get_mode(&self) -> (r: Mode)
        ensures
            r == self@.mode,
    {
        self.mode
    }

    /// Returns what serves the reads and writes of the device.
    pub fn get_handle(&self) -> (r: DeviceHandle)
        ensures
            r == self@.handle,
    {
        self.handle
    }

    /// Tells whether the device's file was asked for.
    pub fn has_file(&self) -> (r: bool)
        ensures
            r == self@.has_file,
    {
        self.has_file
    }

    /// Returns the number of processes that wait for the device.
    pub fn waiting_count(&self) -> (r: usize)
        ensures
            r == self@.waiting.len(),
    {
        self.block_handler.waiting_count()
    }

    /// Asks for the device's file.
    pub fn create_file(&mut self)
        ensures
            final(self)@ == (DeviceState { has_file: true, ..old(self)@ }),
    {
        self.has_file = true;
    }

    /// Makes `proc` wait for the events of `mask` on the device: the
    /// process is put to sleep and added to the waiting processes.
    pub fn add_waiting_process(&mut self, proc: &mut Process, mask: u32) -> (r: Result<(), Errno>)
        ensures
            r is Ok,
            final(self)@ == old(self)@.awaited(old(proc).pid, mask),
            *final(proc) == (Process { state: State::Sleeping, ..*old(proc) }),
    {
        self.block_handler.add_waiting_process(proc, mask)
    }
}

/// The devices of the system, and the major numbers that are taken.
pub struct DeviceManager {
    majors: Vec<(DeviceType, u32)>,
    devices: Vec<Device>,
}

/// What a device manager amounts to.
pub struct DeviceManagerState {
    /// The major numbers that are taken, each with its device type.
    pub majors: Set<(DeviceType, u32)>,
    /// The registered devices, each under its identifier.
    pub devices: Map<DeviceID, DeviceState>,
}

impl DeviceManagerState {
    /// This state with the major number `major` taken for `type_`.
    pub open spec fn with_major(self, type_: DeviceType, major: u32) -> DeviceManagerState {
        DeviceManagerState { majors: self.majors.insert((type_, major)), ..self }
    }

    /// This state with `device` registered, in place of the device that was
    /// registered under its identifier.
    pub open spec fn with_device(self, device: DeviceState) -> DeviceManagerState {
        DeviceManagerState { devices: self.devices.insert(device.id, device), ..self }
    }
}

spec fn device_entries(devices: Seq<Device>) -> Seq<(DeviceID, DeviceState)> {
    devices.map_values(|d: Device| (d@.id, d@))
}

impl View for DeviceManager {
    type V = DeviceManagerState;

    closed spec fn view(&self) -> DeviceManagerState {
        DeviceManagerState {
            majors: Set::new(|m: (DeviceType, u32)| self.majors@.contains(m)),
            devices: assoc_map(device_entries(self.devices@)),
        }
    }
}

impl DeviceManager {
    /// Whether the manager is consistent: no identifier occurs twice among
    /// its devices. Every operation keeps this.
    pub closed spec fn inv(&self) -> bool {
        distinct_keys(device_entries(self.devices@))
    }

    /// Creates a manager without a device, in which no major number is
    /// taken.
    pub fn new() -> (r: DeviceManager)
        ensures
            r.inv(),
            r@ == (DeviceManagerState { majors: Set::empty(), devices: Map::empty() }),
    {
        let r = DeviceManager { majors: Vec::new(), devices: Vec::new() };
        assert(r@.majors =~= Set::<(DeviceType, u32)>::empty());
        r
    }

    /// Tells whether the major number `major` is taken for `type_`.
    pub fn is_major_allocated(&self, type_: DeviceType, major: u32) -> (r: bool)
        ensures
            r == self@.majors.contains((type_, major)),
    {
        let mut i: usize = 0;
        while i < self.majors.len()
            invariant
                i <= self.majors@.len(),
                forall|k: int| 0 <= k < i ==> self.majors@[k] != (type_, major),
            decreases self.majors@.len() - i,
        {
            if self.majors[i].0 == type_ && self.majors[i].1 == major {
                assert(self.majors@[i as int] == (type_, major));
                return true;
            }
            i += 1;
        }
        false
    }

    /// Takes the major number `major` for `type_`.
    ///
    /// Fails with `ENOMEM`, and changes nothing, if the number is taken
    /// already.
    pub fn alloc_major(&mut self, type_: DeviceType, major: u32) -> (r: Result<(), Errno>)
        ensures
            final(self).inv() == old(self).inv(),
            old(self)@.majors.contains((type_, major)) ==> r == Err::<(), Errno>(Errno::ENOMEM)
                && final(self)@ == old(self)@,
            !old(self)@.majors.contains((type_, major)) ==> r is Ok && final(self)@ == old(
                self,
            )@.with_major(type_, major),
    {
        if self.is_major_allocated(type_, major) {
            return Err(Errno::ENOMEM);
        }
        self.majors.push((type_, major));
        proof {
            assert forall|m: (DeviceType, u32)|
                self.majors@.contains(m) <==> old(self).majors@.contains(m) || m == (
                    type_,
                    major,
                ) by {
                if old(self).majors@.contains(m) {
                    let i = choose|i: int|
                        0 <= i < old(self).majors@.len() && old(self).majors@[i] == m;
                    assert(self.majors@[i] == m);
                }
                if m == (type_, major) {
                    assert(self.majors@[self.majors@.len() - 1] == m);
                }
            }
            assert(self@.majors =~= old(self)@.majors.insert((type_, major)));
        }
        Ok(())
    }

    /// Returns the position of the device with the identifier `id`.
    fn find(&self, id: &DeviceID) -> (r: Option<usize>)
        ensures
            r matches Some(i) ==> i < self.devices@.len() && self.devices@[i as int]@.id == *id,
            r is None ==> !has_key(device_entries(self.devices@), *id),
            r is Some <==> self@.devices.contains_key(*id),
    {
        let mut i: usize = 0;
        while i < self.devices.len()
            invariant
                i <= self.devices@.len(),
                forall|k: int| 0 <= k < i ==> self.devices@[k]@.id != *id,
            decreases self.devices@.len() - i,
        {
            if self.devices[i].get_id() == *id {
                proof {
                    assert(device_entries(self.devices@)[i as int].0 == *id);
                    lemma_assoc_keys(device_entries(self.devices@), *id);
                }
                return Some(i);
            }
            i += 1;
        }
        proof {
            assert forall|k: int| 0 <= k < device_entries(self.devices@).len() implies (
            #[trigger] device_entries(self.devices@)[k]).0 != *id by {
                assert(self.devices@[k]@.id != *id);
            }
            lemma_assoc_keys(device_entries(self.devices@), *id);
        }
        None
    }

    /// Returns the device with the identifier `id`, if one is registered.
    pub fn get(&self, id: &DeviceID) -> (r: Option<&Device>)
        requires
            self.inv(),
        ensures
            r is Some <==> self@.devices.contains_key(*id),
            r matches Some(device) ==> device@ == self@.devices[*id],
    {
        match self.find(id) {
            Some(i) => {
                proof {
                    lemma_assoc_value(device_entries(self.devices@), i as int);
                }
                Some(&self.devices[i])
            },
            None => None,
        }
    }

    /// Registers `device`, in place of the device that was registered under
    /// its identifier.
    pub fn register_device(&mut self, device: Device) -> (r: Result<(), Errno>)
        requires
            old(self).inv(),
        ensures
            r is Ok,
            final(self).inv(),
            final(self)@ == old(self)@.with_device(device@),
    {
        let id = device.get_id();
        match self.find(&id) {
            Some(i) => {
                proof {
                    lemma_assoc_update(device_entries(self.devices@), i as int, device@);
                }
                self.devices[i] = device;
                assert(device_entries(self.devices@) =~= device_entries(old(self).devices@).update(
                    i as int,
                    (id, device@),
                ));
            },
            None => {
                proof {
                    lemma_assoc_push(device_entries(self.devices@), id, device@);
                    assert(device_entries(self.devices@.push(device)) =~= device_entries(
                        self.devices@,
                    ).push((id, device@)));
                }
                self.devices.push(device);
            },
        }
        Ok(())
    }

    /// Makes `proc` wait for the events of `mask` on the device with the
    /// identifier `id`. Returns `None`, and changes nothing, if no such
    /// device is registered.
    pub fn add_waiting_process(&mut self, id: &DeviceID, proc: &mut Process, mask: u32) -> (r:
        Option<Result<(), Errno>>)
        requires
            old(self).inv(),
        ensures
            final(self).inv(),
            old(self)@.devices.contains_key(*id) ==> {
                &&& r matches Some(Ok(_))
                &&& final(self)@ == old(self)@.with_device(
                    old(self)@.devices[*id].awaited(old(proc).pid, mask),
                )
                &&& *final(proc) == (Process { state: State::Sleeping, ..*old(proc) })
            },
            !old(self)@.devices.contains_key(*id) ==> {
                &&& r is None
                &&& final(self)@ == old(self)@
                &&& *final(proc) == *old(proc)
            },
    {
        match self.find(id) {
            Some(i) => {
                proof {
                    lemma_assoc_value(device_entries(self.devices@), i as int);
                    lemma_assoc_update(
                        device_entries(self.devices@),
                        i as int,
                        self.devices@[i as int]@.awaited(proc.pid, mask),
                    );
                }
                let r = self.devices[i].add_waiting_process(proc, mask);
                assert(device_entries(self.devices@) =~= device_entries(old(self).devices@).update(
                    i as int,
                    (*id, old(self).devices@[i as int]@.awaited(old(proc).pid, mask)),
                ));
                assert(self@.majors =~= old(self)@.majors);
                Some(r)
            },
            None => None,
        }
    }
}

} // verus!
