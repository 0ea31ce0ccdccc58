//! Exception entry: the saved CPU context, the decoding of the syndrome
//! register, and the handling of interrupts and system calls.
pub mod irq;
pub mod syndrome;
pub mod syscall;
pub mod trap_frame;
