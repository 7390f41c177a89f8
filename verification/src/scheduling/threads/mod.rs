//! Threads
/// Thread state struct
pub mod state;
/// Kernel thread synchronisation primitives
pub mod sync;
/// Threads
pub mod thread;
/// The thread table
pub mod table;

pub use thread::{ProcessID, Thread, ThreadID};
pub use table::ThreadTable;
