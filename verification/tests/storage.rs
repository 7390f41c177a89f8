use azpos_kernel::devices::pci::PCIDevice;
use azpos_kernel::devices::storage::ahci::ata::{ATACommand, ATADriveInfo};
use azpos_kernel::devices::storage::ahci::device::{
    check_transfer, prdt_split, setup_buffer, setup_prdt_entry, AHCIDevice, CommandSlots,
    DEVICE_LBA_MODE,
};
use azpos_kernel::devices::storage::ahci::error::AHCIError;
use azpos_kernel::devices::storage::ahci::fis::{FISRegisterH2D, FISType};
use azpos_kernel::devices::storage::ahci::mmio::{
    AHCIBaseMemoryReg, AHCICommandHeader, AHCICommandHeaderFlags, AHCIPort, PRDTEntry,
};
use azpos_kernel::devices::storage::ahci::types::AHCIDeviceType;
use azpos_kernel::devices::storage::ahci::{
    check_hba, check_pci_device, command_tables_size, commands_per_port, good_ports,
    port_supported, setup_command_headers,
};
use azpos_kernel::devices::storage::mbr::MasterBootRecord;
use azpos_kernel::devices::storage::BlockDeviceError;

/// Identify data for a drive named "QEMU HARDDISK" with `sectors` sectors.
fn identify(sectors: u64) -> [u16; 256] {
    let mut d = [0u16; 256];
    let mut name = [b' '; 40];
    name[..13].copy_from_slice(b"QEMU HARDDISK");
    for i in 0..20 {
        d[27 + i] = u16::from_be_bytes([name[2 * i], name[2 * i + 1]]);
    }
    for i in 0..4 {
        d[100 + i] = (sectors >> (16 * i)) as u16;
    }
    d
}

fn drive(sectors: u64) -> AHCIDevice {
    AHCIDevice::new(ATADriveInfo::new(&identify(sectors)))
}

#[test]
fn identify_data_gives_name_and_size() {
    let info = ATADriveInfo::new(&identify(0x1_0000_0002));
    assert_eq!(info.name(), "QEMU HARDDISK");
    assert_eq!(info.sectors(), 0x1_0000_0002);
    assert_eq!(info.sector_size(), 512);
}

#[test]
fn identify_data_can_give_a_larger_sector_size() {
    let mut d = identify(10);
    d[106] = (1 << 14) | (1 << 12);
    d[117] = 1024;
    let info = ATADriveInfo::new(&d);
    assert_eq!(info.sector_size(), 2048);
}

#[test]
fn command_fis_layout() {
    let dev = drive(100_000);
    let f = dev.command_fis(ATACommand::READ_DMA_EXT, 0x0102_0304_0506, 8).unwrap();
    assert!(f.is_command);
    assert_eq!(f.device, DEVICE_LBA_MODE);
    assert_eq!(f.lba_low, 0x04_0506);
    assert_eq!(f.lba_high, 0x01_0203);
    assert_eq!(f.count, 8);
    let bytes = f.to_bytes();
    assert_eq!(
        bytes,
        [0x27, 0x80, 0x25, 0, 0x06, 0x05, 0x04, 0x40, 0x03, 0x02, 0x01, 0, 8, 0, 0, 0, 0, 0, 0, 0]
    );
    assert_eq!(
        dev.command_fis(ATACommand::READ_DMA_EXT, 0, 100_001),
        Err(BlockDeviceError::InvalidBlock)
    );
}

#[test]
fn empty_fis_has_only_its_type() {
    let f = FISRegisterH2D::new_with_type();
    assert_eq!(f.fis_type, FISType::RegisterH2D);
    assert_eq!(f.to_bytes()[0], 0x27);
    assert!(f.to_bytes()[1..].iter().all(|b| *b == 0));
}

#[test]
fn transfers_fit_in_one_command() {
    let dev = drive(100_000);
    assert_eq!(dev.block_size(), 512);
    assert_eq!(dev.num_blocks(), 100_000);
    // 64MiB per command is more than a 16-bit count of 512-byte blocks.
    assert_eq!(dev.blocks_per_command(), 65535);
    assert_eq!(dev.read_plan(0), None);
    assert_eq!(dev.read_plan(3), Some(3));
    assert_eq!(dev.write_plan(0), Ok(None));
    assert_eq!(dev.write_plan(1024), Ok(Some(2)));
    assert_eq!(dev.write_plan(1000), Err(BlockDeviceError::LengthNotBlockMultiple));
}

#[test]
fn prdt_entries_cover_the_buffer() {
    assert_eq!(prdt_split(0), Vec::<u32>::new());
    assert_eq!(prdt_split(512), vec![512]);
    assert_eq!(prdt_split(0x400000), vec![0x400000]);
    assert_eq!(prdt_split(0x400000 * 2 + 1024), vec![0x400000, 0x400000, 1024]);
}

#[test]
fn transfer_counts_are_checked() {
    assert_eq!(check_transfer(4096, 4096), Ok(()));
    assert_eq!(
        check_transfer(4096, 512),
        Err(BlockDeviceError::OperationFailed { transferred: 512, expected: 4096 })
    );
}

#[test]
fn partitions_start_where_the_mbr_says() {
    let mut b = [0u8; 512];
    b[0x1BE] = 0x80;
    b[0x1BE + 8..0x1BE + 12].copy_from_slice(&2048u32.to_le_bytes());
    b[0x1BE + 12..0x1BE + 16].copy_from_slice(&500u32.to_le_bytes());
    b[510] = 0x55;
    b[511] = 0xAA;
    let mbr = MasterBootRecord::new(&b).unwrap();
    let parts = drive(100_000).partition(&mbr);
    assert_eq!(parts.len(), 1);
    assert_eq!(parts[0].start_sector, 2048);
    assert_eq!(parts[0].sectors, 500);
    assert_eq!(parts[0].num_blocks(), 500);
    let f = parts[0].command_fis(ATACommand::WRITE_DMA_EXT, 10, 1).unwrap();
    assert_eq!(f.lba_low, 2058);
}

#[test]
fn command_slots_hand_out_the_lowest_free_slot() {
    let mut slots = CommandSlots::new(3);
    assert_eq!(slots.len(), 3);
    assert_eq!(slots.allocate(), Some(0));
    assert_eq!(slots.allocate(), Some(1));
    slots.release(0);
    assert_eq!(slots.allocate(), Some(0));
    assert_eq!(slots.allocate(), Some(2));
    assert_eq!(slots.allocate(), None);
}

fn header() -> AHCICommandHeader {
    AHCICommandHeader {
        flags: AHCICommandHeaderFlags { raw: 0x0040 },
        prdt_entries: 0,
        prd_bytes_trans: 77,
        command_table_addr: 0,
    }
}

#[test]
fn buffer_setup_sizes_the_prdt() {
    let mut h = header();
    let lengths = setup_buffer(&mut h, 0x400000 + 512);
    assert_eq!(lengths, vec![0x400000, 512]);
    assert_eq!(h.prdt_entries, 2);
    assert_eq!(h.prd_bytes_trans, 0);
    let mut e = PRDTEntry::new();
    setup_prdt_entry(&mut e, 512, 0x10_0000);
    assert_eq!(e.get_byte_count(), 512);
    assert_eq!(e.addr(), 0x10_0000);
}

#[test]
fn command_headers_point_at_their_tables() {
    let mut hs = vec![header(); 4];
    setup_command_headers(&mut hs, 0x8000_0000, 2, 3);
    // The tables of good port 3 follow those of ports 0 to 2: 2 tables each.
    assert_eq!(hs[0].command_table_addr, 0x8000_0000 + 6 * 384);
    assert_eq!(hs[1].command_table_addr, 0x8000_0000 + 7 * 384);
    assert_eq!(hs[0].prdt_entries, 16);
    assert_eq!(hs[0].flags.raw, 0x0045);
    assert_eq!(hs[2], header());
    assert_eq!(command_tables_size(8, 2), 8 * 2 * 384);
}

fn bmr(caps: u32, implemented: u32) -> AHCIBaseMemoryReg {
    AHCIBaseMemoryReg {
        host_capabilities: caps,
        global_host_control: 0,
        interrupt_status: 0,
        port_implemented: implemented,
        version: 0,
        cmd_completion_coalescing_ctrl: 0,
        cmd_completion_coalescing_ports: 0,
        enclosure_mgmt_location: 0,
        enclosure_mgmt_ctrl: 0,
        host_capabilities_2: 0,
        bios_os_handoff_status: 0,
    }
}

fn port(sata_status: u32, signature: u32) -> AHCIPort {
    AHCIPort {
        cmd_list_base_addr: 0,
        fis_base_addr: 0,
        int_status: 0,
        int_enable: 0,
        command_status: 0,
        task_file_data: 0,
        signature,
        sata_status,
        sata_ctrl: 0,
        sata_error: 0,
        sata_active: 0,
        command_issue: 0,
        sata_notif: 0,
        fis_based_switch_ctrl: 0,
    }
}

#[test]
fn controller_checks() {
    let sata = PCIDevice::new(0, 31, 2, 0x2922_8086, 0x0106_0100).unwrap();
    assert_eq!(check_pci_device(&sata), Ok(()));
    let ide = PCIDevice::new(0, 1, 1, 0x7010_8086, 0x0101_0000).unwrap();
    assert_eq!(check_pci_device(&ide), Err(AHCIError::WrongPCIDevice));
    assert_eq!(check_hba(&bmr(1 << 31, 0)), Ok(()));
    assert_eq!(check_hba(&bmr(0, 0)), Err(AHCIError::DoesntSupport64BitAddr));
    // 32 commands supported (field 31): capped at 8
    assert_eq!(commands_per_port(&bmr(31 << 8, 0)), 8);
    assert_eq!(commands_per_port(&bmr(3 << 8, 0)), 4);
    assert_eq!(bmr(3 << 8, 0).num_supported_commands(), 4);
}

#[test]
fn good_ports_are_implemented_and_present() {
    let mut ports = vec![port(0, 0); 32];
    ports[0] = port(0x113, 0x101);
    ports[2] = port(0x113, 0x101);
    ports[5] = port(0x113, 0xEB14_0101);
    ports[7] = port(0x003, 0x101); // interface not active
    let b = bmr(0, (1 << 0) | (1 << 5) | (1 << 7) | (1 << 9));
    assert_eq!(good_ports(&b, &ports), vec![0, 5]);
    assert!(ports[0].device_detected());
    assert_eq!(ports[5].device_type(), Some(AHCIDeviceType::SATAPI));
    assert_eq!(AHCIDeviceType::from_signature(0x101), Some(AHCIDeviceType::SATA));
    assert_eq!(AHCIDeviceType::from_signature(0x1234), None);
}

#[test]
fn port_command_engine_bits() {
    let mut p = port(0x113, 0x101);
    p.start();
    assert_eq!(p.command_status, 0x11);
    p.issue_command(3);
    assert!(p.command_busy(3));
    assert!(!p.command_busy(2));
    p.stop();
    assert_eq!(p.command_status, 0);
    let mut b = bmr(0, 0);
    b.set_interrupts(true);
    assert_eq!(b.global_host_control, 2);
    b.set_interrupts(false);
    assert_eq!(b.global_host_control, 0);
}

#[test]
fn atapi_ports_are_left_alone() {
    assert!(port_supported(&port(0x133, 0x0000_0101)));
    assert!(!port_supported(&port(0x133, 0xEB14_0101)));
    assert!(port_supported(&port(0x133, 0x1234_5678)));
}
