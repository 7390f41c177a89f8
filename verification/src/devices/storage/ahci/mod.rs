//! AHCI (SATA) driver: the encoding and decoding of what the host bus
//! adapter exchanges with the kernel.
use vstd::prelude::*;

/// ATA commands + structures
pub mod ata;
/// AHCI Memory-Mapped IO structures
pub mod mmio;
/// AHCI device types
pub mod types;
/// AHCI errors
pub mod error;
/// An individual AHCI device
pub mod device;
/// SATA Frame Information Structure stuff
pub mod fis;

use crate::devices::pci::class::PCIDeviceClass;
use crate::devices::pci::device::PCIDevice;
use crate::memory::mmio::{bitfield, read_bitfield, with_bitfield};
use error::AHCIError;
use mmio::{AHCIBaseMemoryReg, AHCICommandHeader, AHCIPort, DET_ACTIVE, IPM_ACTIVE};
use types::{device_type_of, AHCIDeviceType};

verus! {

pub const SATA_PCI_SUBCLASS: u8 = 0x6;
/// The configuration word holding BAR 5, the HBA's register base.
pub const PCI_BAR_5: u8 = 0x9;
/// How many command tables to allocate per port. The driver will allocate
/// either this many or however many the HBA supports, whichever is less.
///
/// Cant be more than 32
pub const MAX_COMMANDS_PER_PORT: u8 = 8;
/// The number of PRDT entries per command.
///
/// Cant be more than 0xFFFF
pub const PRDT_ENTRIES_PER_COMMAND: u16 = 16;

/// The size of one command table: a 64-byte command FIS area, 16 bytes of
/// ATAPI command, 48 reserved bytes, and the PRDT entries of 16 bytes each.
pub const COMMAND_TABLE_SIZE: u64 = 384;

/// The length of a host-to-device register FIS, in dwords.
pub const H2D_FIS_DWORDS: u8 = 5;

/// The number of ports an HBA can have.
pub const MAX_PORTS: usize = 32;

/// A device is attached to the port and talking (interface active, device
/// detected).
pub open spec fn port_present(p: AHCIPort) -> bool {
    bitfield(p.sata_status as int, 8, 12) == IPM_ACTIVE && bitfield(p.sata_status as int, 0, 4)
        == DET_ACTIVE
}

/// The ports among the first `n` that the HBA implements and that have a
/// device, in increasing order.
pub open spec fn good_ports_upto(implemented: u32, ports: Seq<AHCIPort>, n: nat) -> Seq<usize>
    decreases n,
{
    if n == 0 {
        Seq::empty()
    } else {
        let prev = good_ports_upto(implemented, ports, (n - 1) as nat);
        if bitfield(implemented as int, (n - 1) as nat, n) == 1 && port_present(ports[n - 1]) {
            prev.push((n - 1) as usize)
        } else {
            prev
        }
    }
}

/// Checks that a PCI device is a SATA (AHCI) controller.
pub fn check_pci_device(pci_device: &PCIDevice) -> (r: Result<(), AHCIError>)
    ensures
        r == if pci_device.class == PCIDeviceClass::MassStorageCtrl && pci_device.subclass
            == SATA_PCI_SUBCLASS {
            Ok::<(), AHCIError>(())
        } else {
            Err(AHCIError::WrongPCIDevice)
        },
{
    let (class, subclass) = pci_device.class();
    match class {
        PCIDeviceClass::MassStorageCtrl => {
            if subclass != SATA_PCI_SUBCLASS {
                return Err(AHCIError::WrongPCIDevice);
            }
        },
        _ => {
            return Err(AHCIError::WrongPCIDevice);
        },
    }
    Ok(())
}

/// Checks that the HBA can address all of memory (the driver hands it
/// 64-bit addresses).
pub fn check_hba(bmr: &AHCIBaseMemoryReg) -> (r: Result<(), AHCIError>)
    ensures
        r == if bitfield(bmr.host_capabilities as int, 31, 32) != 0 {
            Ok::<(), AHCIError>(())
        } else {
            Err(AHCIError::DoesntSupport64BitAddr)
        },
{
    if !bmr.supports_64bit_addr() {
        return Err(AHCIError::DoesntSupport64BitAddr);
    }
    Ok(())
}

/// The ports the HBA implements that have a device attached, in increasing
/// order.
pub fn good_ports(bmr: &AHCIBaseMemoryReg, ports: &[AHCIPort]) -> (r: Vec<usize>)
    requires
        ports@.len() == MAX_PORTS,
    ensures
        r@ == good_ports_upto(bmr.port_implemented, ports@, MAX_PORTS as nat),
{
    let mut r: Vec<usize> = Vec::new();
    let mut i: usize = 0;
    while i < MAX_PORTS
        invariant
            i <= MAX_PORTS,
            ports@.len() == MAX_PORTS,
            r@ == good_ports_upto(bmr.port_implemented, ports@, i as nat),
        decreases MAX_PORTS - i,
    {
        let implemented = read_bitfield(bmr.port_implemented as u64, i, i + 1) == 1;
        if implemented && ports[i].device_detected() {
            r.push(i);
        }
        i = i + 1;
    }
    r
}

/// How many commands each port gets: as many as the HBA supports, but no
/// more than [`MAX_COMMANDS_PER_PORT`].
pub fn commands_per_port(bmr: &AHCIBaseMemoryReg) -> (r: u8)
    ensures
        r == if bitfield(bmr.host_capabilities as int, 8, 13) + 1 < MAX_COMMANDS_PER_PORT {
            bitfield(bmr.host_capabilities as int, 8, 13) + 1
        } else {
            MAX_COMMANDS_PER_PORT as int
        },
        1 <= r <= MAX_COMMANDS_PER_PORT,
{
    let supported = bmr.num_supported_commands();
    if supported < MAX_COMMANDS_PER_PORT {
        supported
    } else {
        MAX_COMMANDS_PER_PORT
    }
}

/// The bytes needed for the command tables of `n_ports` ports.
pub fn command_tables_size(commands_per_port: u8, n_ports: usize) -> (r: usize)
    requires
        n_ports <= MAX_PORTS,
        commands_per_port <= MAX_COMMANDS_PER_PORT,
    ensures
        r == commands_per_port * n_ports * COMMAND_TABLE_SIZE,
{
    proof {
        assert(commands_per_port * n_ports * 384 <= 8 * 32 * 384) by (nonlinear_arith)
            requires
                commands_per_port <= 8,
                n_ports <= 32,
        ;
    }
    commands_per_port as usize * n_ports * COMMAND_TABLE_SIZE as usize
}

/// The address of a command table: the tables of the `good_index`-th good
/// port follow those of the ports before it.
pub open spec fn command_table_addr(tables_pa: u64, commands_per_port: u8, good_index: int, slot: int) -> int {
    tables_pa + (commands_per_port * good_index + slot) * COMMAND_TABLE_SIZE
}

/// Whether the driver takes on the device at a port: every device but an
/// ATAPI one (such as an optical drive), which is left alone.
pub fn port_supported(port: &AHCIPort) -> (r: bool)
    ensures
        r == (device_type_of(port.signature) != Some(AHCIDeviceType::SATAPI)),
{
    match port.device_type() {
        Some(AHCIDeviceType::SATAPI) => false,
        _ => true,
    }
}

/// Points the first `commands_per_port` command headers of the
/// `good_index`-th good port at their command tables, each with room for
/// [`PRDT_ENTRIES_PER_COMMAND`] PRDT entries and a register FIS.
pub fn setup_command_headers(
    headers: &mut [AHCICommandHeader],
    tables_pa: u64,
    commands_per_port: u8,
    good_index: usize,
)
    requires
        commands_per_port <= old(headers)@.len(),
        commands_per_port <= MAX_COMMANDS_PER_PORT,
        good_index < MAX_PORTS,
        tables_pa + MAX_PORTS * MAX_COMMANDS_PER_PORT * COMMAND_TABLE_SIZE <= u64::MAX,
    ensures
        final(headers)@.len() == old(headers)@.len(),
        forall|k: int|
            0 <= k < commands_per_port ==> {
                let h = #[trigger] final(headers)@[k];
                &&& h.command_table_addr == command_table_addr(
                    tables_pa,
                    commands_per_port,
                    good_index as int,
                    k,
                )
                &&& h.prdt_entries == PRDT_ENTRIES_PER_COMMAND
                &&& h.flags.raw == with_bitfield(
                    old(headers)@[k].flags.raw as int,
                    0,
                    5,
                    H2D_FIS_DWORDS as int,
                )
                &&& h.prd_bytes_trans == old(headers)@[k].prd_bytes_trans
            },
        forall|k: int|
            commands_per_port <= k < old(headers)@.len() ==> #[trigger] final(headers)@[k]
                == old(headers)@[k],
{
    let cpp = commands_per_port as u64;
    proof {
        assert(cpp * good_index + cpp <= 8 * 32) by (nonlinear_arith)
            requires
                cpp <= 8,
                good_index < 32,
        ;
    }
    let port_base = tables_pa + cpp * (good_index as u64) * COMMAND_TABLE_SIZE;
    let mut ct: u8 = 0;
    while ct < commands_per_port
        invariant
            ct <= commands_per_port,
            commands_per_port <= headers@.len(),
            cpp == commands_per_port,
            cpp * good_index + cpp <= 256,
            headers@.len() == old(headers)@.len(),
            port_base == tables_pa + cpp * good_index * COMMAND_TABLE_SIZE,
            tables_pa + MAX_PORTS * MAX_COMMANDS_PER_PORT * COMMAND_TABLE_SIZE <= u64::MAX,
            forall|k: int|
                0 <= k < ct ==> {
                    let h = #[trigger] headers@[k];
                    &&& h.command_table_addr == command_table_addr(
                        tables_pa,
                        commands_per_port,
                        good_index as int,
                        k,
                    )
                    &&& h.prdt_entries == PRDT_ENTRIES_PER_COMMAND
                    &&& h.flags.raw == with_bitfield(
                        old(headers)@[k].flags.raw as int,
                        0,
                        5,
                        H2D_FIS_DWORDS as int,
                    )
                    &&& h.prd_bytes_trans == old(headers)@[k].prd_bytes_trans
                },
            forall|k: int| ct <= k < headers@.len() ==> #[trigger] headers@[k] == old(headers)@[k],
        decreases commands_per_port - ct,
    {
        proof {
            assert((cpp * good_index + ct) * 384 <= 256 * 384) by (nonlinear_arith)
                requires
                    cpp * good_index + ct <= 256,
            ;
            assert(cpp * good_index * 384 + ct * 384 == (cpp * good_index + ct) * 384)
                by (nonlinear_arith);
        }
        let mut h = headers[ct as usize];
        h.command_table_addr = port_base + (ct as u64) * COMMAND_TABLE_SIZE;
        h.prdt_entries = PRDT_ENTRIES_PER_COMMAND;
        h.flags.set_command_fis_len(H2D_FIS_DWORDS);
        headers[ct as usize] = h;
        ct = ct + 1;
    }
}

} // verus!
