//! The GPIO pins: which register and which bits of it belong to a pin.
use vstd::prelude::*;

verus! {

/// The highest pin number of the board.
pub const MAX_PIN: u8 = 53;

/// An alternative GPIO function.
#[derive(Debug, Copy, Clone, PartialEq, Eq)]
pub enum Function {
    Input,
    Output,
    Alt0,
    Alt1,
    Alt2,
    Alt3,
    Alt4,
    Alt5,
}

impl Function {
    /// The three bits that select the function in a function select
    /// register.
    pub open spec fn code_spec(self) -> u32 {
        match self {
            Function::Input => 0b000,
            Function::Output => 0b001,
            Function::Alt0 => 0b100,
            Function::Alt1 => 0b101,
            Function::Alt2 => 0b110,
            Function::Alt3 => 0b111,
            Function::Alt4 => 0b011,
            Function::Alt5 => 0b010,
        }
    }

    /// The three bits that select the function in a function select
    /// register.
    pub fn code(self) -> (code: u32)
        ensures
            code == self.code_spec(),
            code < 8,
    {
        match self {
            Function::Input => 0b000,
            Function::Output => 0b001,
            Function::Alt0 => 0b100,
            Function::Alt1 => 0b101,
            Function::Alt2 => 0b110,
            Function::Alt3 => 0b111,
            Function::Alt4 => 0b011,
            Function::Alt5 => 0b010,
        }
    }
}

/// Which of the six function select registers holds the function of `pin`,
/// and at which bit its three bits begin: ten pins to a register, three bits
/// to a pin.
pub fn fsel_where(pin: u8) -> (pos: (usize, u8))
    requires
        pin <= MAX_PIN,
    ensures
        pos.0 == pin / 10,
        pos.1 == (pin % 10) * 3,
        pos.0 < 6,
        pos.1 <= 27,
{
    ((pin / 10) as usize, (pin % 10) * 3)
}

/// Which of the two set, clear and level registers holds the bit of `pin`,
/// and which bit it is: 32 pins to a register.
pub fn gpio_where(pin: u8) -> (pos: (usize, u8))
    requires
        pin <= MAX_PIN,
    ensures
        pos.0 == pin / 32,
        pos.1 == pin % 32,
        pos.0 < 2,
        pos.1 < 32,
{
    ((pin / 32) as usize, pin % 32)
}

} // verus!
