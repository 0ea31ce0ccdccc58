//! The verified core of a small preemptive kernel for a 64-bit ARM board:
//! a size-class heap allocator, a round-robin process scheduler and the
//! decoder of the exception syndrome register.
//!
//! Everything here is a function of plain values. Hardware (timers, the
//! interrupt controller, the exception return) is driven by the caller, who
//! hands the library what the hardware reported and performs what the library
//! decides.
pub mod allocator;
pub mod fs;
pub mod gpio;
pub mod interrupt;
pub mod process;
pub mod traps;
