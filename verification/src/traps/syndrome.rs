//! The decoder of the exception syndrome register (ESR) of AArch64.
//!
//! An ESR value holds the exception class in its upper six bits and the
//! instruction specific syndrome (ISS) in its lower bits; the decoder reads
//! the lower 24 of them.
use vstd::prelude::*;
use vstd::std_specs::convert::FromSpecImpl;

verus! {

/// The kind of an instruction or data abort.
#[derive(Debug, PartialEq, Eq, Copy, Clone)]
pub enum Fault {
    AddressSize,
    Translation,
    AccessFlag,
    Permission,
    Alignment,
    TlbConflict,
    Other(u8),
}

/// The decoded syndrome of an exception.
#[derive(Debug, PartialEq, Eq, Copy, Clone)]
pub enum Syndrome {
    Unknown,
    WfiWfe,
    McrMrc,
    McrrMrrc,
    LdcStc,
    SimdFp,
    Vmrs,
    Mrrc,
    IllegalExecutionState,
    Svc(u16),
    Hvc(u16),
    Smc(u16),
    MsrMrsSystem,
    InstructionAbort { kind: Fault, level: u8 },
    PCAlignmentFault,
    DataAbort { kind: Fault, level: u8 },
    SpAlignmentFault,
    TrappedFpu,
    SError,
    Breakpoint,
    Step,
    Watchpoint,
    Brk(u16),
    Other(u32),
}

/// The exception class of an ESR value: its bits 26 to 31.
pub open spec fn exception_class(esr: u32) -> u32 {
    esr / 0x400_0000
}

/// The part of the ISS that the decoder reads: bits 0 to 23 of the ESR value.
pub open spec fn syndrome_bits(esr: u32) -> u32 {
    esr % 0x100_0000
}

/// The ESR value with exception class `ec`, instruction length bit `il` and
/// the ISS bits `iss`.
pub open spec fn build(ec: u32, il: u32, iss: u32) -> u32
    recommends
        ec < 64,
        il < 2,
        iss < 0x100_0000,
{
    (ec * 0x400_0000 + il * 0x200_0000 + iss) as u32
}

impl Fault {
    /// The fault level that an ISS holds in its bits 0 and 1.
    pub open spec fn level_spec(iss: u32) -> u8 {
        (iss % 4) as u8
    }

    /// The fault status code that an ISS holds in its bits 2 to 5.
    pub open spec fn code(iss: u32) -> u8 {
        ((iss / 4) % 16) as u8
    }

    /// The fault kind that a fault status code stands for.
    pub open spec fn of_code(code: u8) -> Fault {
        if code == 0 {
            Fault::AddressSize
        } else if code == 1 {
            Fault::Translation
        } else if code == 2 {
            Fault::AccessFlag
        } else if code == 3 {
            Fault::Permission
        } else if code == 12 {
            Fault::TlbConflict
        } else if code == 8 {
            Fault::Alignment
        } else {
            Fault::Other(code)
        }
    }

    /// The fault kind held by an ISS.
    pub open spec fn of_iss(iss: u32) -> Fault {
        Fault::of_code(Fault::code(iss))
    }

    /// Reads the fault level from an ISS.
    pub fn parse_level(val: u32) -> (level: u8)
        ensures
            level == Fault::level_spec(val),
            level <= 3,
    {
        assert(val & 0x3 == val % 4) by (bit_vector);
        (val & 0x3) as u8
    }
}

impl FromSpecImpl<u32> for Fault {
    open spec fn obeys_from_spec() -> bool {
        true
    }

    open spec fn from_spec(val: u32) -> Fault {
        Fault::of_iss(val)
    }
}

impl From<u32> for Fault {
    /// Reads the fault kind from an ISS.
    fn from(val: u32) -> (fault: Fault) {
        assert((val & 0x3C) >> 2 == (val / 4) % 16) by (bit_vector);
        let f = ((val & 0x3C) >> 2) as u8;
        match f {
            0b0000 => Fault::AddressSize,
            0b0001 => Fault::Translation,
            0b0010 => Fault::AccessFlag,
            0b0011 => Fault::Permission,
            0b1100 => Fault::TlbConflict,
            0b1000 => Fault::Alignment,
            _ => Fault::Other(f),
        }
    }
}

impl Syndrome {
    /// The syndrome that the exception class `ec` and the ISS bits `iss`
    /// stand for; `esr` is the whole register value, which an unknown class
    /// carries along.
    pub open spec fn decode(ec: u32, iss: u32, esr: u32) -> Syndrome {
        let imm = (iss % 0x1_0000) as u16;
        if ec == 0x00 {
            Syndrome::Unknown
        } else if ec == 0x01 {
            Syndrome::WfiWfe
        } else if ec == 0x03 || ec == 0x05 {
            Syndrome::McrMrc
        } else if ec == 0x04 {
            Syndrome::McrrMrrc
        } else if ec == 0x06 {
            Syndrome::LdcStc
        } else if ec == 0x07 {
            Syndrome::SimdFp
        } else if ec == 0x08 {
            Syndrome::Vmrs
        } else if ec == 0x0C {
            Syndrome::Mrrc
        } else if ec == 0x0E {
            Syndrome::IllegalExecutionState
        } else if ec == 0x11 || ec == 0x15 {
            Syndrome::Svc(imm)
        } else if ec == 0x12 || ec == 0x16 {
            Syndrome::Hvc(imm)
        } else if ec == 0x13 || ec == 0x17 {
            Syndrome::Smc(imm)
        } else if ec == 0x18 {
            Syndrome::MsrMrsSystem
        } else if ec == 0x20 || ec == 0x21 {
            Syndrome::InstructionAbort { kind: Fault::of_iss(iss), level: Fault::level_spec(iss) }
        } else if ec == 0x22 {
            Syndrome::PCAlignmentFault
        } else if ec == 0x24 || ec == 0x25 {
            Syndrome::DataAbort { kind: Fault::of_iss(iss), level: Fault::level_spec(iss) }
        } else if ec == 0x26 {
            Syndrome::SpAlignmentFault
        } else if ec == 0x28 || ec == 0x2C {
            Syndrome::TrappedFpu
        } else if ec == 0x2F {
            Syndrome::SError
        } else if ec == 0x30 || ec == 0x31 {
            Syndrome::Breakpoint
        } else if ec == 0x32 || ec == 0x33 {
            Syndrome::Step
        } else if ec == 0x34 || ec == 0x35 {
            Syndrome::Watchpoint
        } else if ec == 0x38 || ec == 0x3A || ec == 0x3C {
            Syndrome::Brk(imm)
        } else {
            Syndrome::Other(esr)
        }
    }

    /// The syndrome held by an ESR value.
    pub open spec fn of_esr(esr: u32) -> Syndrome {
        Syndrome::decode(exception_class(esr), syndrome_bits(esr), esr)
    }
}

impl FromSpecImpl<u32> for Syndrome {
    open spec fn obeys_from_spec() -> bool {
        true
    }

    open spec fn from_spec(esr: u32) -> Syndrome {
        Syndrome::of_esr(esr)
    }
}

/// Converts a raw syndrome value (ESR) into a `Syndrome` (ref: D1.10.4).
impl From<u32> for Syndrome {
    fn from(esr: u32) -> (syndrome: Syndrome) {
        assert(esr >> 26 == esr / 0x400_0000) by (bit_vector);
        assert(esr & 0xFFFFFF == esr % 0x100_0000) by (bit_vector);
        let ec = esr >> 26;
        let iss = esr & 0xFFFFFF;
        assert(iss & 0xFFFF == iss % 0x1_0000) by (bit_vector);
        match ec {
            0b000000 => Syndrome::Unknown,
            0b000001 => Syndrome::WfiWfe,
            0b000011 | 0b000101 => Syndrome::McrMrc,
            0b000100 => Syndrome::McrrMrrc,
            0b000110 => Syndrome::LdcStc,
            0b000111 => Syndrome::SimdFp,
            0b001000 => Syndrome::Vmrs,
            0b001100 => Syndrome::Mrrc,
            0b001110 => Syndrome::IllegalExecutionState,
            0b010001 | 0b010101 => Syndrome::Svc((iss & 0xFFFF) as u16),
            0b010010 | 0b010110 => Syndrome::Hvc((iss & 0xFFFF) as u16),
            0b010011 | 0b010111 => Syndrome::Smc((iss & 0xFFFF) as u16),
            0b011000 => Syndrome::MsrMrsSystem,
            0b100000 | 0b100001 => Syndrome::InstructionAbort {
                kind: Fault::from(iss),
                level: Fault::parse_level(iss),
            },
            0b100010 => Syndrome::PCAlignmentFault,
            0b100100 | 0b100101 => Syndrome::DataAbort {
                kind: Fault::from(iss),
                level: Fault::parse_level(iss),
            },
            0b100110 => Syndrome::SpAlignmentFault,
            0b101000 | 0b101100 => Syndrome::TrappedFpu,
            0b101111 => Syndrome::SError,
            0b110000 | 0b110001 => Syndrome::Breakpoint,
            0b110010 | 0b110011 => Syndrome::Step,
            0b110100 | 0b110101 => Syndrome::Watchpoint,
            0b111000 | 0b111010 | 0b111100 => Syndrome::Brk((iss & 0xFFFF) as u16),
            _ => Syndrome::Other(esr),
        }
    }
}

/// Decoding what was built gives back what it was built from: for every
/// exception class `ec`, instruction length bit `il` and ISS bits `iss`, the
/// ESR value built from them decodes to the syndrome that `ec` and `iss`
/// stand for.
pub proof fn lemma_decode_build(ec: u32, il: u32, iss: u32)
    requires
        ec < 64,
        il < 2,
        iss < 0x100_0000,
    ensures
        exception_class(build(ec, il, iss)) == ec,
        syndrome_bits(build(ec, il, iss)) == iss,
        Syndrome::of_esr(build(ec, il, iss)) == Syndrome::decode(ec, iss, build(ec, il, iss)),
{
}

/// The decoder is total, and an ESR value whose exception class the table
/// does not hold comes back whole: `Other` carries the register value.
pub proof fn lemma_unknown_class_keeps_value(esr: u32)
    ensures
        Syndrome::of_esr(esr) is Other ==> Syndrome::of_esr(esr) == Syndrome::Other(esr),
{
}

} // verus!
