//! The saved CPU state of a thread.
use vstd::prelude::*;
use crate::memory::user::USER_END_ADDR;

verus! {

/// The `RFLAGS` interrupt-enable flag.
pub const RFLAGS_INTERRUPT_FLAG: u64 = 0x200;

/// The values the CPU pushes on an interrupt and pops on `iretq`.
#[derive(Clone, Copy, Debug, PartialEq, Eq, Structural)]
pub struct InterruptFrame {
    pub instruction_pointer: u64,
    pub code_segment: u64,
    pub cpu_flags: u64,
    pub stack_pointer: u64,
    pub stack_segment: u64,
}

/// Stores the state of the CPU (registers, etc)
#[derive(Clone, Copy, Debug, PartialEq, Eq, Structural)]
pub struct CpuState {
    pub rax: u64,
    pub rbx: u64,
    pub rcx: u64,
    pub rdx: u64,
    pub rdi: u64,
    pub rsi: u64,
    pub rbp: u64,
    pub r8: u64,
    pub r9: u64,
    pub r10: u64,
    pub r11: u64,
    pub r12: u64,
    pub r13: u64,
    pub r14: u64,
    pub r15: u64,
    // Stores RIP and RSP
    pub int_stack: InterruptFrame,
}

impl CpuState {
    /// Creates a new state with a given stack pointer, and entrypoint, and
    /// argument (as passed to the entrypoint in `RDI`), running in the given
    /// code and data segments with interrupts enabled. All other registers
    /// are set to 0.
    pub fn new(stack: u64, entry: u64, arg: u64, code_selector: u16, data_selector: u16) -> (s:
        CpuState)
        ensures
            s.rdi == arg,
            s.int_stack == (InterruptFrame {
                instruction_pointer: entry,
                code_segment: code_selector as u64,
                cpu_flags: RFLAGS_INTERRUPT_FLAG,
                stack_pointer: stack,
                stack_segment: data_selector as u64,
            }),
            s.rax == 0 && s.rbx == 0 && s.rcx == 0 && s.rdx == 0 && s.rsi == 0 && s.rbp == 0,
            s.r8 == 0 && s.r9 == 0 && s.r10 == 0 && s.r11 == 0 && s.r12 == 0 && s.r13 == 0 && s.r14
                == 0 && s.r15 == 0,
    {
        CpuState {
            rax: 0,
            rbx: 0,
            rcx: 0,
            rdx: 0,
            rdi: arg,
            rsi: 0,
            rbp: 0,
            r8: 0,
            r9: 0,
            r10: 0,
            r11: 0,
            r12: 0,
            r13: 0,
            r14: 0,
            r15: 0,
            int_stack: InterruptFrame {
                instruction_pointer: entry,
                code_segment: code_selector as u64,
                cpu_flags: RFLAGS_INTERRUPT_FLAG,
                stack_pointer: stack,
                stack_segment: data_selector as u64,
            },
        }
    }

    pub open spec fn spec_is_user(&self) -> bool {
        self.int_stack.instruction_pointer < USER_END_ADDR
    }

    /// Whether the state was interrupted in user space (its instruction
    /// pointer lies in the user half of the address space).
    pub fn is_user(&self) -> (b: bool)
        ensures
            b == self.spec_is_user(),
    {
        self.int_stack.instruction_pointer < USER_END_ADDR
    }
}

} // verus!
