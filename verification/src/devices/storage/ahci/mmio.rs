//! AHCI memory-mapped register values. Refer to the AHCI spec for more info.
use vstd::prelude::*;
use vstd::arithmetic::power2::pow2;
use crate::memory::mmio::{
    bitfield,
    with_bitfield,
    read_bitfield,
    write_bitfield,
    lemma_with_bitfield_bound,
    lemma_bitfield_after_write,
};
use super::types::{AHCIDeviceType, device_type_of};

verus! {

/// Bit `k` of a 32-bit register.
fn reg_bit(reg: u32, k: usize) -> (b: bool)
    requires
        k < 32,
    ensures
        b == (bitfield(reg as int, k as nat, (k + 1) as nat) == 1),
{
    read_bitfield(reg as u64, k, k + 1) == 1
}

/// A 32-bit register with the bits `from..to` replaced by `value`.
fn with_reg_field(reg: u32, from: usize, to: usize, value: u64) -> (r: u32)
    requires
        from <= to <= 32,
    ensures
        r == with_bitfield(reg as int, from as nat, to as nat, value as int),
{
    let mut raw = reg as u64;
    write_bitfield(&mut raw, from, to, value);
    proof {
        vstd::arithmetic::power2::lemma2_to64();
        lemma_with_bitfield_bound(reg as int, from as nat, to as nat, value as int, 32);
    }
    raw as u32
}

/// The HBA's global registers.
#[derive(Debug, Clone, Copy, PartialEq, Eq, Structural)]
pub struct AHCIBaseMemoryReg {
    pub host_capabilities: u32,
    pub global_host_control: u32,
    pub interrupt_status: u32,
    pub port_implemented: u32,
    pub version: u32,
    pub cmd_completion_coalescing_ctrl: u32,
    pub cmd_completion_coalescing_ports: u32,
    pub enclosure_mgmt_location: u32,
    pub enclosure_mgmt_ctrl: u32,
    pub host_capabilities_2: u32,
    pub bios_os_handoff_status: u32,
}

impl AHCIBaseMemoryReg {
    /// Does the HBA support 64-bit addressing?
    pub fn supports_64bit_addr(&self) -> (b: bool)
        ensures
            b == (bitfield(self.host_capabilities as int, 31, 32) != 0),
    {
        read_bitfield(self.host_capabilities as u64, 31, 32) != 0
    }

    /// Enable or disable interrupts, HBA-wide
    pub fn set_interrupts(&mut self, ints: bool)
        ensures
            final(self).global_host_control == with_bitfield(
                old(self).global_host_control as int,
                1,
                2,
                if ints { 1 } else { 0 },
            ),
            bitfield(final(self).global_host_control as int, 1, 2) == if ints { 1int } else { 0 },
            final(self).host_capabilities == old(self).host_capabilities,
            final(self).port_implemented == old(self).port_implemented,
    {
        let v: u64 = if ints {
            1
        } else {
            0
        };
        let old_ghc = self.global_host_control;
        self.global_host_control = with_reg_field(old_ghc, 1, 2, v);
        proof {
            lemma_bitfield_after_write(old_ghc as int, 1, 2, v as int, 1, 2);
            vstd::arithmetic::power2::lemma2_to64();
            assert(bitfield(with_bitfield(old_ghc as int, 1, 2, v as int), 1, 2) == v as int % 2);
        }
    }

    /// Returns the number of commands supported by the HBA
    pub fn num_supported_commands(&self) -> (r: u8)
        ensures
            r == bitfield(self.host_capabilities as int, 8, 13) + 1,
            1 <= r <= 32,
    {
        let raw = read_bitfield(self.host_capabilities as u64, 8, 13);
        proof {
            vstd::arithmetic::power2::lemma2_to64();
        }
        // Raw value "0" really means 1
        raw as u8 + 1
    }
}

/// The registers of one HBA port.
#[derive(Debug, Clone, Copy, PartialEq, Eq, Structural)]
pub struct AHCIPort {
    pub cmd_list_base_addr: u64,
    pub fis_base_addr: u64,
    pub int_status: u32,
    pub int_enable: u32,
    pub command_status: u32,
    pub task_file_data: u32,
    /// The raw signature register (see [`AHCIPort::device_type`])
    pub signature: u32,
    pub sata_status: u32,
    pub sata_ctrl: u32,
    pub sata_error: u32,
    pub sata_active: u32,
    pub command_issue: u32,
    pub sata_notif: u32,
    pub fis_based_switch_ctrl: u32,
}

/// Power management (IPM) field value of an active interface.
pub const IPM_ACTIVE: u64 = 0x1;
/// Device detection (DET) field value of a device present with
/// communication established.
pub const DET_ACTIVE: u64 = 0x3;

impl AHCIPort {
    /// The kind of device attached, if its signature is a known one.
    pub fn device_type(&self) -> (r: Option<AHCIDeviceType>)
        ensures
            r == device_type_of(self.signature),
    {
        AHCIDeviceType::from_signature(self.signature)
    }

    /// Returns true if sata_status.IPM is active and sata_status.DET is
    /// detected/connected
    pub fn device_detected(&self) -> (b: bool)
        ensures
            b == (bitfield(self.sata_status as int, 8, 12) == IPM_ACTIVE && bitfield(
                self.sata_status as int,
                0,
                4,
            ) == DET_ACTIVE),
    {
        let ipm = read_bitfield(self.sata_status as u64, 8, 12);
        let det = read_bitfield(self.sata_status as u64, 0, 4);
        ipm == IPM_ACTIVE && det == DET_ACTIVE
    }

    /// Whether the port is processing a command list (PxCMD.CR).
    pub fn command_list_running(&self) -> (b: bool)
        ensures
            b == (bitfield(self.command_status as int, 15, 16) != 0),
    {
        read_bitfield(self.command_status as u64, 15, 16) != 0
    }

    /// Sets the port to start receiving commands: sets PxCMD.ST and
    /// PxCMD.FRE. The port must not be processing a command list.
    pub fn start(&mut self)
        requires
            bitfield(old(self).command_status as int, 15, 16) == 0,
        ensures
            final(self).command_status == with_bitfield(
                with_bitfield(old(self).command_status as int, 0, 1, 1),
                4,
                5,
                1,
            ),
            bitfield(final(self).command_status as int, 0, 1) == 1,
            bitfield(final(self).command_status as int, 4, 5) == 1,
            final(self).command_issue == old(self).command_issue,
            final(self).sata_status == old(self).sata_status,
    {
        let ghost c0 = self.command_status as int;
        // PxCMD_ST
        let c1 = with_reg_field(self.command_status, 0, 1, 1);
        // PxCMD_FRE
        let c2 = with_reg_field(c1, 4, 5, 1);
        proof {
            vstd::arithmetic::power2::lemma2_to64();
            lemma_bitfield_after_write(c0, 0, 1, 1, 4, 5);
            lemma_bitfield_after_write(c1 as int, 4, 5, 1, 0, 1);
            assert(bitfield(c1 as int, 0, 1) == 1int % 2);
            assert(bitfield(c2 as int, 4, 5) == 1int % 2);
        }
        self.command_status = c2;
    }

    /// Sets the port to stop receiving commands: clears PxCMD.ST and
    /// PxCMD.FRE.
    pub fn stop(&mut self)
        ensures
            final(self).command_status == with_bitfield(
                with_bitfield(old(self).command_status as int, 0, 1, 0),
                4,
                5,
                0,
            ),
            bitfield(final(self).command_status as int, 0, 1) == 0,
            bitfield(final(self).command_status as int, 4, 5) == 0,
            final(self).command_issue == old(self).command_issue,
            final(self).sata_status == old(self).sata_status,
    {
        let ghost c0 = self.command_status as int;
        // PxCMD_ST
        let c1 = with_reg_field(self.command_status, 0, 1, 0);
        // PxCMD_FRE
        let c2 = with_reg_field(c1, 4, 5, 0);
        proof {
            vstd::arithmetic::power2::lemma2_to64();
            lemma_bitfield_after_write(c0, 0, 1, 0, 4, 5);
            lemma_bitfield_after_write(c1 as int, 4, 5, 0, 0, 1);
            assert(bitfield(c1 as int, 0, 1) == 0int % 2);
            assert(bitfield(c2 as int, 4, 5) == 0int % 2);
        }
        self.command_status = c2;
    }

    /// Modifies the port's command issue field to start the command at the
    /// specified index
    pub fn issue_command(&mut self, command_index: usize)
        requires
            command_index < 32,
        ensures
            final(self).command_issue == with_bitfield(
                old(self).command_issue as int,
                command_index as nat,
                (command_index + 1) as nat,
                1,
            ),
            bitfield(final(self).command_issue as int, command_index as nat, (command_index + 1) as nat) == 1,
            final(self).command_status == old(self).command_status,
            final(self).sata_status == old(self).sata_status,
    {
        proof {
            lemma_bitfield_after_write(
                self.command_issue as int,
                command_index as nat,
                (command_index + 1) as nat,
                1,
                0,
                0,
            );
            vstd::arithmetic::power2::lemma2_to64();
            assert((command_index + 1) as nat - command_index as nat == 1);
        }
        self.command_issue = with_reg_field(self.command_issue, command_index, command_index + 1, 1);
    }

    /// Returns whether the command at the given index is currently being
    /// handled by the device
    pub fn command_busy(&self, command_index: usize) -> (b: bool)
        requires
            command_index < 32,
        ensures
            b == (bitfield(self.command_issue as int, command_index as nat, (command_index + 1) as nat)
                == 1),
    {
        reg_bit(self.command_issue, command_index)
    }
}

/// The flags word of a command header: the command FIS length in dwords
/// (bits 0-4), ATAPI (5), write (6), prefetchable (7), reset (8), BIST (9),
/// clear busy on OK (10), and the port multiplier port (bits 12-15).
#[derive(Debug, Clone, Copy, PartialEq, Eq, Structural)]
pub struct AHCICommandHeaderFlags {
    pub raw: u16,
}

impl AHCICommandHeaderFlags {
    /// Sets the length of the command FIS, in dwords (at most 31).
    pub fn set_command_fis_len(&mut self, len: u8)
        requires
            len < 32,
        ensures
            final(self).raw == with_bitfield(old(self).raw as int, 0, 5, len as int),
            bitfield(final(self).raw as int, 0, 5) == len,
    {
        let mut raw = self.raw as u64;
        write_bitfield(&mut raw, 0, 5, len as u64);
        proof {
            vstd::arithmetic::power2::lemma2_to64();
            lemma_with_bitfield_bound(self.raw as int, 0, 5, len as int, 16);
            lemma_bitfield_after_write(self.raw as int, 0, 5, len as int, 0, 0);
        }
        self.raw = raw as u16;
    }

    /// Sets whether the command writes to the device.
    pub fn set_write(&mut self, write: bool)
        ensures
            final(self).raw == with_bitfield(old(self).raw as int, 6, 7, if write { 1 } else { 0 }),
            bitfield(final(self).raw as int, 6, 7) == if write { 1int } else { 0 },
    {
        let v: u64 = if write {
            1
        } else {
            0
        };
        let mut raw = self.raw as u64;
        write_bitfield(&mut raw, 6, 7, v);
        proof {
            vstd::arithmetic::power2::lemma2_to64();
            lemma_with_bitfield_bound(self.raw as int, 6, 7, v as int, 16);
            lemma_bitfield_after_write(self.raw as int, 6, 7, v as int, 0, 0);
            assert(bitfield(with_bitfield(self.raw as int, 6, 7, v as int), 6, 7) == v as int % 2);
        }
        self.raw = raw as u16;
    }
}

/// A command list entry.
#[derive(Debug, Clone, Copy, PartialEq, Eq, Structural)]
pub struct AHCICommandHeader {
    pub flags: AHCICommandHeaderFlags,
    /// Number of Physical Regional Descriptor Table entries
    pub prdt_entries: u16,
    /// Physical regional descriptor byte count transferred
    pub prd_bytes_trans: u32,
    pub command_table_addr: u64,
}

/// A physical region descriptor: one buffer of a command.
#[derive(Debug, Clone, Copy, PartialEq, Eq, Structural)]
pub struct PRDTEntry {
    data_base_address: u64,
    /// Max u22, bit 0 is always 1, bits 22-30 are reserved, bit 31 is interrupt
    /// on complete flag
    byte_count: u32,
}

impl PRDTEntry {
    /// The maximum size, in bytes, of a single PRDT entry's data. Set by AHCI
    /// spec to be 4MiB.
    pub const MAX_DATA_SIZE: u32 = 0x400000;

    pub closed spec fn spec_address(&self) -> u64 {
        self.data_base_address
    }

    /// The raw byte count dword.
    pub closed spec fn spec_raw_count(&self) -> u32 {
        self.byte_count
    }

    /// The number of bytes the entry describes: one more than the 22-bit
    /// count field holds.
    pub open spec fn spec_byte_count(&self) -> int {
        bitfield(self.spec_raw_count() as int, 0, 22) + 1
    }

    /// The interrupt-on-completion flag (bit 31).
    pub open spec fn spec_int_flag(&self) -> bool {
        bitfield(self.spec_raw_count() as int, 31, 32) == 1
    }

    /// An entry with no address, a zero count field and no flags.
    pub fn new() -> (e: Self)
        ensures
            e.spec_address() == 0,
            e.spec_raw_count() == 0,
    {
        PRDTEntry { data_base_address: 0, byte_count: 0 }
    }

    pub fn get_byte_count(&self) -> (r: u32)
        ensures
            r == self.spec_byte_count(),
    {
        let raw_count = read_bitfield(self.byte_count as u64, 0, 22);
        proof {
            vstd::arithmetic::power2::lemma2_to64();
        }
        // Per spec, byte count '1' actually means 2 bytes
        raw_count as u32 + 1
    }

    /// Sets the number of bytes the entry describes, which must be even,
    /// not zero, and at most 4MiB (0x400000).
    pub fn set_byte_count(&mut self, count: u32)
        requires
            0 < count <= Self::MAX_DATA_SIZE,
            count % 2 == 0,
        ensures
            final(self).spec_byte_count() == count,
            final(self).spec_int_flag() == old(self).spec_int_flag(),
            bitfield(final(self).spec_raw_count() as int, 22, 32) == bitfield(
                old(self).spec_raw_count() as int,
                22,
                32,
            ),
            final(self).spec_address() == old(self).spec_address(),
    {
        proof {
            vstd::arithmetic::power2::lemma2_to64();
            lemma_bitfield_after_write(self.byte_count as int, 0, 22, (count - 1) as int, 31, 32);
            lemma_bitfield_after_write(self.byte_count as int, 0, 22, (count - 1) as int, 22, 32);
        }
        // The count value is 1 less than the actual number of bytes
        self.byte_count = with_reg_field(self.byte_count, 0, 22, (count - 1) as u64);
    }

    /// Sets the interrupt-on-completion flag.
    pub fn set_int_flag(&mut self, interrupt: bool)
        ensures
            final(self).spec_int_flag() == interrupt,
            final(self).spec_byte_count() == old(self).spec_byte_count(),
            final(self).spec_address() == old(self).spec_address(),
    {
        proof {
            vstd::arithmetic::power2::lemma2_to64();
            lemma_bitfield_after_write(self.byte_count as int, 31, 32, if interrupt { 1 } else { 0 }, 0, 22);
        }
        self.byte_count = with_reg_field(
            self.byte_count,
            31,
            32,
            if interrupt {
                1
            } else {
                0
            },
        );
    }

    /// Sets the physical address of the entry's buffer, which must be word
    /// (2-byte) aligned.
    pub fn set_addr(&mut self, pa: u64)
        requires
            pa % 2 == 0,
        ensures
            final(self).spec_address() == pa,
            final(self).spec_raw_count() == old(self).spec_raw_count(),
    {
        self.data_base_address = pa;
    }

    /// The physical address of the entry's buffer.
    pub fn addr(&self) -> (r: u64)
        ensures
            r == self.spec_address(),
    {
        self.data_base_address
    }
}

} // verus!
