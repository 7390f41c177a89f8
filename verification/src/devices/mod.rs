//! Device drivers: the parts that decode and encode what the hardware
//! exchanges.

/// Framebuffer graphics
pub mod fb;
/// System device manager
pub mod manager;
/// PS/2 keyboard driver
pub mod keyboard;
/// PCI bus driver
pub mod pci;
/// Programmable Interrupt Controller
pub mod pic;
/// Storage device drivers
pub mod storage;
