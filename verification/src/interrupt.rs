//! The interrupt sources of the board and where the interrupt controller
//! keeps each of them.
use vstd::prelude::*;

verus! {

/// An interrupt source.
#[derive(Debug, Copy, Clone, PartialEq, Eq)]
pub enum Interrupt {
    Timer1,
    Timer3,
    Usb,
    Gpio0,
    Gpio1,
    Gpio2,
    Gpio3,
    Uart,
}

impl Interrupt {
    /// The number of the interrupt in the controller's numbering.
    pub open spec fn number_spec(self) -> u64 {
        match self {
            Interrupt::Timer1 => 1,
            Interrupt::Timer3 => 3,
            Interrupt::Usb => 9,
            Interrupt::Gpio0 => 49,
            Interrupt::Gpio1 => 50,
            Interrupt::Gpio2 => 51,
            Interrupt::Gpio3 => 52,
            Interrupt::Uart => 57,
        }
    }

    /// The number of the interrupt in the controller's numbering.
    pub fn number(self) -> (n: u64)
        ensures
            n == self.number_spec(),
    {
        match self {
            Interrupt::Timer1 => 1,
            Interrupt::Timer3 => 3,
            Interrupt::Usb => 9,
            Interrupt::Gpio0 => 49,
            Interrupt::Gpio1 => 50,
            Interrupt::Gpio2 => 51,
            Interrupt::Gpio3 => 52,
            Interrupt::Uart => 57,
        }
    }

    /// Where the controller keeps the interrupt: which of its two 32-bit
    /// registers, and which bit of it.
    pub fn register_pos(self) -> (pos: (usize, u8))
        ensures
            pos.0 == self.number_spec() / 32,
            pos.1 == self.number_spec() % 32,
            pos.0 < 2,
            pos.1 < 32,
    {
        let id = self.number();
        let register_num = id / 32;
        let offset = id % 32;
        (register_num as usize, offset as u8)
    }

    /// The word to write to the enable or disable register of the interrupt,
    /// and to test its pending register with: only the bit of the interrupt
    /// set.
    pub fn mask(self) -> (mask: u32)
        ensures
            mask == vstd::arithmetic::power2::pow2((self.number_spec() % 32) as nat),
    {
        let (_, offset) = self.register_pos();
        proof {
            vstd::bits::lemma_u32_pow2_no_overflow(offset as nat);
            vstd::bits::lemma_u32_shl_is_mul(1, offset as u32);
        }
        1u32 << offset
    }
}

} // verus!
