//! User-space memory: where it ends, and the permissions of its pages.
use vstd::prelude::*;
use crate::processes::elfdefs::{ELF_PT_FLAG_R, ELF_PT_FLAG_W, ELF_PT_FLAG_X};

verus! {

/// One past the highest user-space virtual address.
pub const USER_END_ADDR: u64 = 0x0000_8000_0000_0000;

/// Page table entry bit: the page is mapped.
pub const PTE_PRESENT: u64 = 1;
/// Page table entry bit: the page may be written.
pub const PTE_WRITABLE: u64 = 1 << 1;
/// Page table entry bit: user mode may access the page.
pub const PTE_USER_ACCESSIBLE: u64 = 1 << 2;
/// Page table entry bit: code on the page may not run.
pub const PTE_NO_EXECUTE: u64 = 1 << 63;

/// The permissions of a piece of user memory.
#[derive(Clone, Copy, Debug, PartialEq, Eq, Structural)]
pub struct UserMemoryFlags {
    pub read: bool,
    pub write: bool,
    pub execute: bool,
}

impl UserMemoryFlags {
    /// Converts an ELF `p_flags` value into permissions: each permission is
    /// set exactly when its ELF flag bit is.
    pub fn from_elf_flags(p_flags: u32) -> (r: Self)
        ensures
            r.read == (p_flags & ELF_PT_FLAG_R != 0),
            r.write == (p_flags & ELF_PT_FLAG_W != 0),
            r.execute == (p_flags & ELF_PT_FLAG_X != 0),
    {
        UserMemoryFlags {
            read: p_flags & ELF_PT_FLAG_R != 0,
            write: p_flags & ELF_PT_FLAG_W != 0,
            execute: p_flags & ELF_PT_FLAG_X != 0,
        }
    }
}

/// The page table flags of user pages with the given permissions: present
/// and user-accessible always, writable when writes are allowed, and
/// no-execute unless execution is.
pub open spec fn spec_user_page_flags(flags: UserMemoryFlags) -> u64 {
    PTE_PRESENT | PTE_USER_ACCESSIBLE | (if flags.write { PTE_WRITABLE } else { 0 }) | (if flags.execute {
        0
    } else {
        PTE_NO_EXECUTE
    })
}

/// The flags of user pages hold the present and user bits, the writable bit
/// exactly when writes are allowed, and the no-execute bit exactly when
/// execution is not.
proof fn lemma_user_page_flags(w: bool, x: bool)
    by (bit_vector)
    ensures
        ({
            let f = PTE_PRESENT | PTE_USER_ACCESSIBLE | (if w { PTE_WRITABLE } else { 0u64 }) | (
            if x {
                0u64
            } else {
                PTE_NO_EXECUTE
            });
            &&& f & PTE_PRESENT != 0
            &&& f & PTE_USER_ACCESSIBLE != 0
            &&& (f & PTE_WRITABLE != 0) == w
            &&& (f & PTE_NO_EXECUTE != 0) == !x
        }),
{
}

/// Computes the page table flags for user pages with the given permissions.
pub fn user_page_flags(flags: UserMemoryFlags) -> (r: u64)
    ensures
        r == spec_user_page_flags(flags),
        r & PTE_PRESENT != 0,
        r & PTE_USER_ACCESSIBLE != 0,
        (r & PTE_WRITABLE != 0) == flags.write,
        (r & PTE_NO_EXECUTE != 0) == !flags.execute,
{
    let writable = if flags.write {
        PTE_WRITABLE
    } else {
        0
    };
    let no_execute = if flags.execute {
        0
    } else {
        PTE_NO_EXECUTE
    };
    proof {
        lemma_user_page_flags(flags.write, flags.execute);
    }
    PTE_PRESENT | PTE_USER_ACCESSIBLE | writable | no_execute
}

/// Whether a range of user pages whose last page starts at `end_addr` lies
/// in user space (allocating one that does not is refused).
pub fn in_user_space(end_addr: u64) -> (r: bool)
    ensures
        r == (end_addr < USER_END_ADDR),
{
    end_addr < USER_END_ADDR
}

} // verus!
