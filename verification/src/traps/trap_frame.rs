//! The saved CPU context of a preempted process.
use vstd::prelude::*;

verus! {

/// The size in bytes of a trap frame as the exception vector lays it out:
/// four 8-byte registers, 32 floating-point registers of 16 bytes and 32
/// general registers of 8 bytes.
pub const TRAP_FRAME_SIZE: usize = 800;

/// The index, among the general registers of a trap frame, of the link
/// register of the exception handler.
pub const LINK_REGISTER: usize = 1;

/// The index, among the general registers of a trap frame, of the register
/// that carries the argument and the result of a system call.
pub const ARGUMENT_REGISTER: usize = 31;

/// The CPU context that the exception vector saves on entry and restores on
/// exit, in the order in which it is saved.
#[derive(Debug, Copy, Clone, PartialEq, Eq)]
pub struct TrapFrame {
    /// The stack pointer of the interrupted code.
    pub stack_pointer: u64,
    /// The thread ID register.
    pub thread_id: u64,
    /// The saved program state.
    pub program_state: u64,
    /// The address at which the interrupted code resumes.
    pub program_counter: u64,
    /// The floating-point registers.
    pub floating_point_registers: [u128; 32],
    /// The general registers.
    pub general_registers: [u64; 32],
}

impl TrapFrame {
    /// Whether every register of the frame is zero.
    pub open spec fn is_zeroed(self) -> bool {
        &&& self.stack_pointer == 0
        &&& self.thread_id == 0
        &&& self.program_state == 0
        &&& self.program_counter == 0
        &&& forall|i: int| 0 <= i < 32 ==> #[trigger] self.floating_point_registers[i] == 0
        &&& forall|i: int| 0 <= i < 32 ==> #[trigger] self.general_registers[i] == 0
    }

    /// This frame with general register `index` set to `value`.
    pub open spec fn with_register(self, index: int, value: u64) -> TrapFrame {
        TrapFrame {
            general_registers: vstd::array::spec_array_update(self.general_registers, index, value),
            ..self
        }
    }
}

impl Default for TrapFrame {
    /// The frame with every register zero.
    fn default() -> (frame: TrapFrame)
        ensures
            frame.is_zeroed(),
    {
        TrapFrame {
            stack_pointer: 0,
            thread_id: 0,
            program_state: 0,
            program_counter: 0,
            floating_point_registers: [0u128; 32],
            general_registers: [0u64; 32],
        }
    }
}

} // verus!
