use kernel::device::default::create;
use kernel::device::default::CurrentTTYDeviceHandle;
use kernel::device::default::KMsgDeviceHandle;
use kernel::device::default::NullDeviceHandle;
use kernel::device::default::ZeroDeviceHandle;
use kernel::device::Device;
use kernel::device::DeviceHandle;
use kernel::device::DeviceID;
use kernel::device::DeviceManager;
use kernel::device::DeviceType;
use kernel::errno::Errno;
use kernel::process::Process;
use kernel::process::State;

fn char_device(major: u32, minor: u32) -> DeviceID {
    DeviceID { type_: DeviceType::Char, major, minor }
}

#[test]
fn null_device_is_empty_and_swallows() {
    let mut dev = NullDeviceHandle {};
    let mut buf = [3u8; 4];
    assert_eq!(dev.get_size(), 0);
    assert_eq!(dev.read(0, &mut buf), Ok(0));
    assert_eq!(buf, [3u8; 4]);
    assert_eq!(dev.write(7, b"hello"), Ok(5));
    assert_eq!(dev.write(0, b""), Ok(0));
}

#[test]
fn zero_device_gives_zeros() {
    let mut dev = ZeroDeviceHandle {};
    let mut buf = [3u8; 6];
    assert_eq!(dev.get_size(), 0);
    assert_eq!(dev.read(100, &mut buf), Ok(6));
    assert_eq!(buf, [0u8; 6]);
    let mut none = [0u8; 0];
    assert_eq!(dev.read(0, &mut none), Ok(0));
    assert_eq!(dev.write(0, b"abc"), Ok(3));
}

#[test]
fn kmsg_device_reads_the_beginning_of_the_log() {
    let mut dev = KMsgDeviceHandle {};
    let log = b"boot: ok\n";
    assert_eq!(dev.get_size(log), 9);
    let mut buf = [0u8; 4];
    assert_eq!(dev.read(0, &mut buf, log), Ok(4));
    assert_eq!(&buf, b"boot");
    let mut all = [0u8; 9];
    assert_eq!(dev.read(0, &mut all, log), Ok(9));
    assert_eq!(&all, log);
    let mut none = [0u8; 0];
    assert_eq!(dev.read(0, &mut none, b""), Ok(0));
    assert_eq!(dev.write(0, b"abc"), Ok(3));
}

#[test]
fn current_tty_device_writes_to_the_terminal() {
    let mut dev = CurrentTTYDeviceHandle {};
    let mut tty = b"$ ".to_vec();
    assert_eq!(dev.get_size(), 0);
    assert_eq!(dev.write(0, b"ls\n", &mut tty), Ok(3));
    assert_eq!(dev.write(9, b"", &mut tty), Ok(0));
    assert_eq!(tty, b"$ ls\n".to_vec());
}

#[test]
fn create_registers_the_default_devices() {
    let mut manager = DeviceManager::new();
    assert_eq!(create(&mut manager), Ok(()));
    assert!(manager.is_major_allocated(DeviceType::Char, 1));
    assert!(manager.is_major_allocated(DeviceType::Char, 5));
    assert!(!manager.is_major_allocated(DeviceType::Block, 1));
    assert!(!manager.is_major_allocated(DeviceType::Char, 2));

    let null = manager.get(&char_device(1, 3)).unwrap();
    assert_eq!(null.get_path(), "/dev/null");
    assert_eq!(null.get_mode(), 0o666);
    assert_eq!(null.get_handle(), DeviceHandle::Null(NullDeviceHandle {}));
    assert_eq!(null.get_id(), char_device(1, 3));
    assert!(!null.has_file());

    let zero = manager.get(&char_device(1, 5)).unwrap();
    assert_eq!(zero.get_path(), "/dev/zero");
    assert_eq!(zero.get_mode(), 0o666);
    assert_eq!(zero.get_handle(), DeviceHandle::Zero(ZeroDeviceHandle {}));

    let kmsg = manager.get(&char_device(1, 11)).unwrap();
    assert_eq!(kmsg.get_path(), "/dev/kmsg");
    assert_eq!(kmsg.get_mode(), 0o600);
    assert_eq!(kmsg.get_handle(), DeviceHandle::KMsg(KMsgDeviceHandle {}));

    let tty = manager.get(&char_device(5, 0)).unwrap();
    assert_eq!(tty.get_path(), "/dev/tty");
    assert_eq!(tty.get_mode(), 0o666);
    assert_eq!(tty.get_handle(), DeviceHandle::CurrentTTY(CurrentTTYDeviceHandle {}));
    assert!(tty.has_file());
    assert_eq!(tty.waiting_count(), 0);

    assert!(manager.get(&char_device(1, 4)).is_none());
    assert!(manager.get(&DeviceID { type_: DeviceType::Block, major: 1, minor: 3 }).is_none());
}

#[test]
fn create_fails_where_the_first_major_is_taken() {
    let mut manager = DeviceManager::new();
    manager.alloc_major(DeviceType::Char, 1).unwrap();
    assert_eq!(create(&mut manager), Err(Errno::ENOMEM));
    assert!(manager.get(&char_device(1, 3)).is_none());
    assert!(manager.get(&char_device(5, 0)).is_none());
    assert!(!manager.is_major_allocated(DeviceType::Char, 5));
}

#[test]
fn create_fails_midway_where_the_second_major_is_taken() {
    let mut manager = DeviceManager::new();
    manager.alloc_major(DeviceType::Char, 5).unwrap();
    assert_eq!(create(&mut manager), Err(Errno::ENOMEM));
    // Nothing is undone
    assert!(manager.is_major_allocated(DeviceType::Char, 1));
    assert!(manager.get(&char_device(1, 3)).is_some());
    assert!(manager.get(&char_device(1, 5)).is_some());
    assert!(manager.get(&char_device(1, 11)).is_some());
    assert!(manager.get(&char_device(5, 0)).is_none());
}

#[test]
fn create_twice_fails_the_second_time() {
    let mut manager = DeviceManager::new();
    // A block major of the same number does not stand in the way
    manager.alloc_major(DeviceType::Block, 1).unwrap();
    assert_eq!(create(&mut manager), Ok(()));
    assert_eq!(create(&mut manager), Err(Errno::ENOMEM));
    assert!(manager.get(&char_device(5, 0)).is_some());
}

#[test]
fn a_major_is_taken_once() {
    let mut manager = DeviceManager::new();
    assert_eq!(manager.alloc_major(DeviceType::Block, 8), Ok(()));
    assert_eq!(manager.alloc_major(DeviceType::Block, 8), Err(Errno::ENOMEM));
    assert_eq!(manager.alloc_major(DeviceType::Char, 8), Ok(()));
    assert!(manager.is_major_allocated(DeviceType::Block, 8));
    assert!(!manager.is_major_allocated(DeviceType::Block, 9));
}

#[test]
fn registering_a_device_replaces_the_one_of_its_number() {
    let mut manager = DeviceManager::new();
    let null = DeviceHandle::Null(NullDeviceHandle {});
    let zero = DeviceHandle::Zero(ZeroDeviceHandle {});
    manager.register_device(Device::new(1, 3, "/dev/a", 0o600, DeviceType::Char, null)).unwrap();
    manager.register_device(Device::new(1, 4, "/dev/b", 0o600, DeviceType::Char, null)).unwrap();
    manager.register_device(Device::new(1, 3, "/dev/c", 0o644, DeviceType::Char, zero)).unwrap();
    let dev = manager.get(&char_device(1, 3)).unwrap();
    assert_eq!(dev.get_path(), "/dev/c");
    assert_eq!(dev.get_mode(), 0o644);
    assert_eq!(dev.get_handle(), zero);
    assert_eq!(manager.get(&char_device(1, 4)).unwrap().get_path(), "/dev/b");
}

#[test]
fn a_process_waits_on_a_registered_device() {
    let mut manager = DeviceManager::new();
    create(&mut manager).unwrap();
    let mut proc = Process::new(7);
    assert_eq!(manager.add_waiting_process(&char_device(5, 0), &mut proc, 1), Some(Ok(())));
    assert_eq!(proc.get_state(), State::Sleeping);
    assert_eq!(manager.get(&char_device(5, 0)).unwrap().waiting_count(), 1);
    assert_eq!(manager.get(&char_device(1, 3)).unwrap().waiting_count(), 0);
    let mut other = Process::new(8);
    assert_eq!(manager.add_waiting_process(&char_device(9, 9), &mut other, 1), None);
    assert_eq!(other.get_state(), State::Running);
    let mut dev = Device::new(2, 2, "/dev/x", 0, DeviceType::Block, manager.get(&char_device(1, 3)).unwrap().get_handle());
    assert_eq!(dev.add_waiting_process(&mut other, 4), Ok(()));
    assert_eq!(dev.waiting_count(), 1);
    dev.create_file();
    assert!(dev.has_file());
}
