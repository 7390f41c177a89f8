//! PCI bus enumeration.
//!
//! Specific parameters for configuration accesses:
//! - `device` must be at most 5 bits
//! - `func` must be at most 3 bits
//! - `word` must be an index into the 32-bit words in the configuration
//!    space. Must be below 64, as that's how many words there are.
use vstd::prelude::*;

/// Addressing of the configuration space
pub mod config;
/// PCI device functions
pub mod device;
/// PCI device classes
pub mod class;

pub use device::PCIDevice;
pub use class::PCIDeviceClass;

verus! {

/// The bus addresses the controller probes, in order: every function of
/// every device of buses 0 to 255.
pub open spec fn probe_index(bus: int, device: int, function: int) -> int {
    bus * 256 + device * 8 + function
}

/// The number of addresses probed.
pub open spec fn probe_count() -> int {
    256 * 256int
}

/// The bus address probed at step `i`.
pub open spec fn probe_address(i: int) -> (u8, u8, u8) {
    ((i / 256) as u8, ((i % 256) / 8) as u8, (i % 8) as u8)
}

/// The devices found on the PCI bus.
#[derive(Debug)]
pub struct PCIController {
    devices: Vec<PCIDevice>,
}

/// The state of a scan of the PCI bus: which address to probe next, and
/// the devices found so far.
pub struct PCIScan {
    next: u32,
    found: Vec<PCIDevice>,
}

impl PCIScan {
    /// How many addresses have been probed.
    pub closed spec fn probed(&self) -> int {
        self.next as int
    }

    /// The devices found so far.
    pub closed spec fn found(&self) -> Seq<PCIDevice> {
        self.found@
    }

    /// A scan that has probed nothing yet.
    pub fn new() -> (s: Self)
        ensures
            s.probed() == 0,
            s.found() == Seq::<PCIDevice>::empty(),
    {
        PCIScan { next: 0, found: Vec::new() }
    }

    /// The next bus address (bus, device, function) to probe, or `None`
    /// once every address has been probed.
    pub fn next_address(&self) -> (r: Option<(u8, u8, u8)>)
        ensures
            self.probed() < probe_count() <==> r is Some,
            r matches Some(a) ==> a == probe_address(self.probed()) && a.1 < 32 && a.2 < 8,
    {
        if self.next >= 256 * 256 {
            return None;
        }
        let bus = (self.next / 256) as u8;
        let device = ((self.next % 256) / 8) as u8;
        let function = (self.next % 8) as u8;
        Some((bus, device, function))
    }

    /// Records what was found at the address [`Self::next_address`]
    /// gave, and moves on to the next one.
    pub fn record(&mut self, found: Option<PCIDevice>)
        requires
            old(self).probed() < probe_count(),
        ensures
            final(self).probed() == old(self).probed() + 1,
            final(self).found() == match found {
                Some(d) => old(self).found().push(d),
                None => old(self).found(),
            },
    {
        match found {
            Some(d) => self.found.push(d),
            None => {},
        }
        self.next = self.next + 1;
    }

    /// The controller holding every device found, in probe order.
    pub fn finish(self) -> (c: PCIController)
        ensures
            c.spec_devices() == self.found(),
    {
        PCIController { devices: self.found }
    }
}

impl PCIController {
    /// The devices on the bus.
    pub closed spec fn spec_devices(&self) -> Seq<PCIDevice> {
        self.devices@
    }

    /// Returns a slice of the PCI devices on the system
    pub fn devices(&self) -> (r: &[PCIDevice])
        ensures
            r@ == self.spec_devices(),
    {
        self.devices.as_slice()
    }
}

} // verus!
