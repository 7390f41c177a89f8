//! Kernel thread synchronisation primitives
/// A bounded FIFO buffer
pub mod queue;

pub use queue::Buffer;
