use azpos_kernel::devices::keyboard::chars::{to_ascii_upper, Keyboard as TextKeyboard};
use azpos_kernel::devices::keyboard::{InvalidScancode, Keyboard, Scancode};
use azpos_kernel::devices::manager::{
    find_driver, keyboard_driver_info, split_identifier, unique_drivers, DeviceType, DriverInfo,
};
use azpos_kernel::devices::pci::config::config_address;
use azpos_kernel::devices::pci::{PCIDevice, PCIDeviceClass};
use azpos_kernel::devices::pci::PCIScan;
use azpos_kernel::devices::pic::{PICInterrupt, PIC_1_OFFSET, PIC_2_OFFSET};
use azpos_kernel::devices::storage::mbr::{MBRPartitionType, MasterBootRecord};
use azpos_kernel::devices::storage::ata::bus::{probe_step, ATABus, ProbeEvent, ProbeState};
use azpos_kernel::devices::storage::ata::ports::{
    DriveHeadRegister, ErrorRegister, IORegisterType, StatusRegister,
};
use azpos_kernel::devices::storage::ata::ATABusDrive;

#[test]
fn pci_config_address_layout() {
    assert_eq!(config_address(0, 0, 0, 0), 0x8000_0000);
    assert_eq!(config_address(1, 2, 3, 4), 0x8000_0000 | (1 << 16) | (2 << 11) | (3 << 8) | 16);
    assert_eq!(config_address(255, 31, 7, 63), 0x80FF_FFFC);
}

#[test]
fn pci_device_from_config_words() {
    assert!(PCIDevice::new(0, 1, 0, 0xFFFF_FFFF, 0).is_none());
    let d = PCIDevice::new(0, 31, 2, 0x2922_8086, 0x0106_0100).unwrap();
    assert_eq!(d.class(), (PCIDeviceClass::MassStorageCtrl, 6));
    assert_eq!(PCIDevice::vendor_id_of(0x2922_8086), 0x8086);
}

#[test]
fn pci_class_codes() {
    assert_eq!(PCIDeviceClass::try_from(0x03), Ok(PCIDeviceClass::DisplayCtrl));
    assert_eq!(PCIDeviceClass::try_from(0x40), Ok(PCIDeviceClass::CoProcessor));
    assert_eq!(PCIDeviceClass::try_from(0x20), Err(()));
}

#[test]
fn pci_scan_visits_every_function_in_order() {
    let mut scan = PCIScan::new();
    assert_eq!(scan.next_address(), Some((0, 0, 0)));
    scan.record(None);
    assert_eq!(scan.next_address(), Some((0, 0, 1)));
    for _ in 1..8 {
        scan.record(None);
    }
    assert_eq!(scan.next_address(), Some((0, 1, 0)));
    scan.record(PCIDevice::new(0, 1, 0, 0x1234_8086, 0x0300_0000));
    let controller = scan.finish();
    assert_eq!(controller.devices().len(), 1);
    assert_eq!(controller.devices()[0].class(), (PCIDeviceClass::DisplayCtrl, 0));
}

#[test]
fn pci_scan_covers_the_last_bus() {
    let mut scan = PCIScan::new();
    let mut probed = 0usize;
    let mut last = None;
    while let Some(a) = scan.next_address() {
        last = Some(a);
        scan.record(None);
        probed += 1;
    }
    assert_eq!(probed, 256 * 256);
    assert_eq!(last, Some((255, 31, 7)));
}

#[test]
fn scancodes_decode() {
    assert_eq!(Scancode::try_from(0x1E), Ok(Scancode::Char('a')));
    assert_eq!(Scancode::try_from(0x1C), Ok(Scancode::Enter));
    assert_eq!(Scancode::try_from(0x3A), Ok(Scancode::CapsLock));
    assert_eq!(Scancode::try_from(0x1D), Err(InvalidScancode));
    let mut kb = Keyboard::new();
    assert_eq!(kb.read_scancode(0x39), Some(Scancode::Char(' ')));
    assert_eq!(kb.read_scancode(0x80), None);
}

#[test]
fn caps_lock_and_shift_toggle_case() {
    let mut kb = TextKeyboard::new();
    assert_eq!(kb.read_char(0x1E), Some('a'));
    assert_eq!(kb.read_char(0x2A), None); // shift pressed
    assert_eq!(kb.read_char(0x1E), Some('A'));
    assert_eq!(kb.read_char(0xAA), None); // shift released
    assert_eq!(kb.read_char(0x1E), Some('a'));
    assert_eq!(kb.read_char(0x3A), None); // caps lock
    assert_eq!(kb.read_char(0x02), Some('1'));
    assert_eq!(kb.read_char(0x1C), Some('\n'));
    assert_eq!(kb.read_char(0x10), Some('Q'));
    assert_eq!(kb.read_scancode(0x3A), 0x3A);
    assert!(!kb.caps);
    assert_eq!(to_ascii_upper('z'), 'Z');
    assert_eq!(to_ascii_upper('7'), '7');
}

#[test]
fn device_identifiers_split_on_one_colon() {
    assert_eq!(
        split_identifier("ps2_keyboard:keyboard"),
        Some((String::from("ps2_keyboard"), String::from("keyboard")))
    );
    assert_eq!(split_identifier(":"), Some((String::new(), String::new())));
    assert_eq!(split_identifier("keyboard"), None);
    assert_eq!(split_identifier("a:b:c"), None);
}

fn driver(name: &str) -> DriverInfo {
    DriverInfo { driver_name: String::from(name), devices: Vec::new() }
}

#[test]
fn duplicate_driver_names_are_thrown_out() {
    let mut first = driver("disk");
    first.devices = keyboard_driver_info().devices;
    let infos = vec![first, driver("net"), driver("disk"), driver("kbd"), driver("net")];
    let kept = unique_drivers(infos);
    let names: Vec<&str> = kept.iter().map(|d| d.driver_name.as_str()).collect();
    assert_eq!(names, vec!["disk", "net", "kbd"]);
    // The first "disk" is the one kept.
    assert_eq!(kept[0].devices.len(), 1);
    assert_eq!(find_driver(&kept, &String::from("kbd")), Some(2));
    assert_eq!(find_driver(&kept, &String::from("gpu")), None);
}

#[test]
fn keyboard_driver_offers_one_keyboard() {
    let info = keyboard_driver_info();
    assert_eq!(info.driver_name, "ps2_keyboard");
    assert_eq!(info.devices.len(), 1);
    assert_eq!(info.devices[0].device_name, "keyboard");
    assert_eq!(info.devices[0].device_type, DeviceType::Keyboard);
}

#[test]
fn pic_vectors() {
    assert_eq!(PICInterrupt::Timer.vector(), 32);
    assert_eq!(PIC_1_OFFSET, 32);
    assert_eq!(PIC_2_OFFSET, 40);
}

fn mbr_with(entries: &[(u8, u8, u32, u32)], signed: bool) -> [u8; 512] {
    let mut b = [0u8; 512];
    for (i, (status, ty, start, count)) in entries.iter().enumerate() {
        let off = 0x1BE + 16 * i;
        b[off] = *status;
        b[off + 4] = *ty;
        b[off + 8..off + 12].copy_from_slice(&start.to_le_bytes());
        b[off + 12..off + 16].copy_from_slice(&count.to_le_bytes());
    }
    if signed {
        b[510] = 0x55;
        b[511] = 0xAA;
    }
    b
}

#[test]
fn mbr_active_partitions_in_table_order() {
    let bytes = mbr_with(&[(0x80, 0x0C, 2048, 1000), (0, 0x0C, 5000, 10), (0x80, 0xEE, 9000, 20)], true);
    let mbr = MasterBootRecord::new(&bytes).unwrap();
    assert_eq!(mbr.entries.len(), 4);
    assert_eq!(mbr.entries[0].partition_type(), MBRPartitionType::Fat32Lba);
    assert_eq!(mbr.entries[2].partition_type(), MBRPartitionType::GPT);
    assert_eq!(mbr.entries[3].partition_type(), MBRPartitionType::Empty);
    let active = mbr.active_partitions();
    assert_eq!(active.len(), 2);
    assert_eq!(active[0].lba_start, 2048);
    assert_eq!(active[1].lba_start, 9000);
    assert!(MasterBootRecord::new(&mbr_with(&[], false)).is_none());
}

#[test]
fn ata_status_and_error_bits() {
    let s = StatusRegister(0x58);
    assert!(s.service_request() && s.data_request());
    assert!(!s.error() && !s.busy());
    // The ready flag is read from bit 7, the busy bit, not from bit 6.
    assert!(!s.ready());
    assert!(StatusRegister(0x80).ready());
    assert!(StatusRegister(0x80).busy());
    assert!(StatusRegister(0xFF).floating_bus());
    assert!(StatusRegister(0).zero());
    let e = ErrorRegister(0x04);
    assert!(e.aborted_command());
    assert!(!e.bad_block_detected());
    assert_eq!(IORegisterType::StatusCommand.offset(), 7);
}

#[test]
fn drive_head_register_selects_the_drive() {
    assert_eq!(DriveHeadRegister::new(0, ATABusDrive::Primary).0, 0xE0);
    assert_eq!(DriveHeadRegister::new(0x5, ATABusDrive::Secondary).0, 0xF5);
    assert_eq!(ATABus::drive_select_value(ATABusDrive::Secondary).0, 0xF0);
}

#[test]
fn drive_probe_finds_an_ata_drive() {
    let mut s = probe_step(ProbeState::Sent, ProbeEvent::Status(StatusRegister(0x80)));
    assert_eq!(s, ProbeState::WaitNotBusy);
    s = probe_step(s, ProbeEvent::Status(StatusRegister(0x80)));
    assert_eq!(s, ProbeState::WaitNotBusy);
    s = probe_step(s, ProbeEvent::Status(StatusRegister(0x40)));
    assert_eq!(s, ProbeState::CheckSignature);
    s = probe_step(s, ProbeEvent::Signature(0, 0));
    assert_eq!(s, ProbeState::WaitData);
    s = probe_step(s, ProbeEvent::Status(StatusRegister(0x40)));
    assert_eq!(s, ProbeState::WaitData);
    s = probe_step(s, ProbeEvent::Status(StatusRegister(0x48)));
    assert_eq!(s, ProbeState::Done(true));
}

#[test]
fn drive_probe_rejects_missing_and_foreign_drives() {
    assert_eq!(
        probe_step(ProbeState::Sent, ProbeEvent::Status(StatusRegister(0))),
        ProbeState::Done(false)
    );
    assert_eq!(
        probe_step(ProbeState::CheckSignature, ProbeEvent::Signature(0x14, 0xEB)),
        ProbeState::Done(false)
    );
    assert_eq!(
        probe_step(ProbeState::WaitData, ProbeEvent::Status(StatusRegister(0x01))),
        ProbeState::Done(false)
    );
    // An event the probe does not wait for changes nothing.
    assert_eq!(
        probe_step(ProbeState::WaitData, ProbeEvent::Signature(0, 0)),
        ProbeState::WaitData
    );
}

#[test]
fn ata_bus_needs_a_drive() {
    assert!(ATABus::new(0x1F0, 0x3F6, StatusRegister(0xFF), true, true).is_none());
    assert!(ATABus::new(0x1F0, 0x3F6, StatusRegister(0x50), false, false).is_none());
    let bus = ATABus::new(0x1F0, 0x3F6, StatusRegister(0x50), true, false).unwrap();
    assert!(bus.has_primary());
    assert!(!bus.has_secondary());
    assert_eq!(bus.io_port(IORegisterType::LBAMid), 0x1F4);
}
