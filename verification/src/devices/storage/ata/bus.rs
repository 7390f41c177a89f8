//! An ATA bus: which of its two drives exist, and the decisions of the
//! probe that finds out.
//!
//! Probing talks to the bus's ports; the kernel's hardware layer does the
//! port reads and writes, and asks [`probe_step`] what to do after each read.
use vstd::prelude::*;
use super::ATABusDrive;
use super::ports::{bit_set, DriveHeadRegister, IORegisterType, StatusRegister};

verus! {

/// The command that asks a drive to identify itself.
pub const ATA_IDENTIFY: u8 = 0xEC;

/// How many times the status register is read after a drive is selected,
/// to give the drive time to respond.
pub const SELECT_STATUS_POLLS: usize = 14;

/// Where a drive probe stands, after the drive was selected, its LBA and
/// sector count registers zeroed, and the IDENTIFY command sent.
#[derive(Debug, Copy, Clone, PartialEq, Eq, Structural)]
pub enum ProbeState {
    /// The first status read is due.
    Sent,
    /// Waiting for the drive to stop being busy.
    WaitNotBusy,
    /// The LBA mid and high registers are to be read: a non-ATA device
    /// leaves its signature there.
    CheckSignature,
    /// Waiting for the identify data, or an error.
    WaitData,
    /// The probe is over: whether the drive exists.
    Done(bool),
}

/// What was read from the bus during a probe.
#[derive(Debug, Copy, Clone, PartialEq, Eq, Structural)]
pub enum ProbeEvent {
    /// The status register.
    Status(StatusRegister),
    /// The LBA mid and high registers.
    Signature(u8, u8),
}

/// The probe's next state after a read: a first status of zero means no
/// drive; otherwise the probe waits out a busy drive (reading the status
/// afresh), then a drive whose signature registers
/// are not zero is not an ATA drive; after that an error means no drive and
/// a data request means the drive exists (its identify data is ready).
pub open spec fn spec_probe_step(state: ProbeState, event: ProbeEvent) -> ProbeState {
    match (state, event) {
        (ProbeState::Sent, ProbeEvent::Status(s)) => if s.0 == 0 {
            ProbeState::Done(false)
        } else {
            ProbeState::WaitNotBusy
        },
        (ProbeState::WaitNotBusy, ProbeEvent::Status(s)) => if bit_set(s.0, 7) {
            ProbeState::WaitNotBusy
        } else {
            ProbeState::CheckSignature
        },
        (ProbeState::CheckSignature, ProbeEvent::Signature(mid, high)) => if mid != 0 || high != 0 {
            ProbeState::Done(false)
        } else {
            ProbeState::WaitData
        },
        (ProbeState::WaitData, ProbeEvent::Status(s)) => if bit_set(s.0, 0) {
            ProbeState::Done(false)
        } else if bit_set(s.0, 3) {
            ProbeState::Done(true)
        } else {
            ProbeState::WaitData
        },
        _ => state,
    }
}

/// Advances a drive probe by what was just read from the bus. An event the
/// state does not wait for leaves it unchanged.
pub fn probe_step(state: ProbeState, event: ProbeEvent) -> (r: ProbeState)
    ensures
        r == spec_probe_step(state, event),
{
    match (state, event) {
        (ProbeState::Sent, ProbeEvent::Status(s)) => {
            if s.zero() {
                ProbeState::Done(false)
            } else {
                ProbeState::WaitNotBusy
            }
        },
        (ProbeState::WaitNotBusy, ProbeEvent::Status(s)) => {
            if s.busy() {
                ProbeState::WaitNotBusy
            } else {
                ProbeState::CheckSignature
            }
        },
        (ProbeState::CheckSignature, ProbeEvent::Signature(mid, high)) => {
            if mid != 0 || high != 0 {
                ProbeState::Done(false)
            } else {
                ProbeState::WaitData
            }
        },
        (ProbeState::WaitData, ProbeEvent::Status(s)) => {
            if s.error() {
                ProbeState::Done(false)
            } else if s.data_request() {
                ProbeState::Done(true)
            } else {
                ProbeState::WaitData
            }
        },
        _ => state,
    }
}

/// An ATA bus with at least one drive.
#[derive(Debug)]
pub struct ATABus {
    io_base: u16,
    control_base: u16,
    selected_drive: ATABusDrive,
    selected_block_address: u64,
    has_primary: bool,
    has_secondary: bool,
}

impl ATABus {
    pub closed spec fn spec_io_base(&self) -> u16 {
        self.io_base
    }

    pub closed spec fn spec_control_base(&self) -> u16 {
        self.control_base
    }

    pub closed spec fn spec_selected_drive(&self) -> ATABusDrive {
        self.selected_drive
    }

    pub closed spec fn spec_has_primary(&self) -> bool {
        self.has_primary
    }

    pub closed spec fn spec_has_secondary(&self) -> bool {
        self.has_secondary
    }

    /// Creates the bus at the given port ranges, from what probing it found:
    /// the status first read from it, and whether each drive answered.
    /// A floating bus (status all ones) has no drives, and a bus on which
    /// neither drive answered is of no use: both give `None`.
    pub fn new(
        io_base: u16,
        control_base: u16,
        status: StatusRegister,
        primary_found: bool,
        secondary_found: bool,
    ) -> (r: Option<Self>)
        ensures
            match r {
                Some(bus) => {
                    &&& status.0 != 0xFF
                    &&& primary_found || secondary_found
                    &&& bus.spec_io_base() == io_base
                    &&& bus.spec_control_base() == control_base
                    &&& bus.spec_has_primary() == primary_found
                    &&& bus.spec_has_secondary() == secondary_found
                    &&& bus.spec_selected_drive() == ATABusDrive::Secondary
                },
                None => status.0 == 0xFF || (!primary_found && !secondary_found),
            },
    {
        // Floating bus indicates no drives
        if status.floating_bus() {
            return None;
        }
        let mut bus = ATABus {
            io_base,
            control_base,
            selected_drive: ATABusDrive::Primary,
            selected_block_address: 0,
            has_primary: false,
            has_secondary: false,
        };
        bus.record_drive(ATABusDrive::Primary, primary_found);
        bus.record_drive(ATABusDrive::Secondary, secondary_found);
        if !bus.has_primary && !bus.has_secondary {
            return None;
        }
        Some(bus)
    }

    /// Records that `drive` was selected and whether it exists (the end of
    /// a probe of it).
    pub fn record_drive(&mut self, drive: ATABusDrive, exists: bool)
        ensures
            final(self).spec_selected_drive() == drive,
            final(self).spec_has_primary() == if drive == ATABusDrive::Primary {
                exists
            } else {
                old(self).spec_has_primary()
            },
            final(self).spec_has_secondary() == if drive == ATABusDrive::Secondary {
                exists
            } else {
                old(self).spec_has_secondary()
            },
            final(self).spec_io_base() == old(self).spec_io_base(),
            final(self).spec_control_base() == old(self).spec_control_base(),
    {
        self.selected_drive = drive;
        match drive {
            ATABusDrive::Primary => self.has_primary = exists,
            ATABusDrive::Secondary => self.has_secondary = exists,
        }
    }

    /// Whether the primary drive exists.
    pub fn has_primary(&self) -> (r: bool)
        ensures
            r == self.spec_has_primary(),
    {
        self.has_primary
    }

    /// Whether the secondary drive exists.
    pub fn has_secondary(&self) -> (r: bool)
        ensures
            r == self.spec_has_secondary(),
    {
        self.has_secondary
    }

    /// The port of one of the bus's I/O registers.
    pub fn io_port(&self, reg: IORegisterType) -> (r: u16)
        requires
            self.spec_io_base() + 8 <= u16::MAX,
        ensures
            r == self.spec_io_base() + reg.spec_offset(),
    {
        self.io_base + reg.offset()
    }

    /// The Drive/Head register value that selects `drive` for LBA48
    /// addressing (whose block bits there stay zero).
    pub fn drive_select_value(drive: ATABusDrive) -> (r: DriveHeadRegister)
        ensures
            r.0 == 0b1110_0000 + 16 * drive.number(),
    {
        DriveHeadRegister::new(0, drive)
    }
}

} // verus!
