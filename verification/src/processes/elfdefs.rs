//! ELF definitions used when loading programs.
use vstd::prelude::*;

verus! {

/// Program header flag: the segment is executable.
pub const ELF_PT_FLAG_X: u32 = 1;
/// Program header flag: the segment is writable.
pub const ELF_PT_FLAG_W: u32 = 2;
/// Program header flag: the segment is readable.
pub const ELF_PT_FLAG_R: u32 = 4;

/// Segment type of a loadable segment.
pub const PT_LOAD: u32 = 1;

/// Object file type: relocatable file.
pub const ET_REL: u16 = 1;
/// Object file type: executable file.
pub const ET_EXEC: u16 = 2;

} // verus!
