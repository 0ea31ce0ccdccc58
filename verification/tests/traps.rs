use kernel::fs::sd::{wait_micros, Error, ReadError, Sd};
use kernel::gpio::{fsel_where, gpio_where, Function};
use kernel::interrupt::Interrupt;
use kernel::traps::syndrome::{Fault, Syndrome};
use kernel::traps::trap_frame::{TrapFrame, TRAP_FRAME_SIZE};

fn esr(ec: u32, il: u32, iss: u32) -> u32 {
    (ec << 26) | (il << 25) | iss
}

#[test]
fn svc_carries_its_immediate() {
    assert_eq!(Syndrome::from(0x56000003), Syndrome::Svc(3));
    assert_eq!(Syndrome::from(esr(0x15, 1, 0xFFFF)), Syndrome::Svc(0xFFFF));
    assert_eq!(Syndrome::from(esr(0x15, 0, 0x1_0001)), Syndrome::Svc(1));
    assert_eq!(Syndrome::from(esr(0x11, 0, 7)), Syndrome::Svc(7));
}

#[test]
fn data_abort_carries_kind_and_level() {
    assert_eq!(
        Syndrome::from(esr(0x25, 1, 0x0E)),
        Syndrome::DataAbort { kind: Fault::Permission, level: 2 }
    );
    assert_eq!(
        Syndrome::from(esr(0x24, 0, 0x07)),
        Syndrome::DataAbort { kind: Fault::Translation, level: 3 }
    );
    assert_eq!(
        Syndrome::from(esr(0x25, 1, 0x06)),
        Syndrome::DataAbort { kind: Fault::Translation, level: 2 }
    );
}

#[test]
fn instruction_abort_carries_kind_and_level() {
    assert_eq!(
        Syndrome::from(esr(0x20, 0, 0x21)),
        Syndrome::InstructionAbort { kind: Fault::Alignment, level: 1 }
    );
    assert_eq!(
        Syndrome::from(esr(0x21, 0, 0x30)),
        Syndrome::InstructionAbort { kind: Fault::TlbConflict, level: 0 }
    );
}

#[test]
fn fault_kinds_by_status_code() {
    assert_eq!(Fault::from(0b0000_00), Fault::AddressSize);
    assert_eq!(Fault::from(0b0001_00), Fault::Translation);
    assert_eq!(Fault::from(0b0010_00), Fault::AccessFlag);
    assert_eq!(Fault::from(0b0011_00), Fault::Permission);
    assert_eq!(Fault::from(0b1000_00), Fault::Alignment);
    assert_eq!(Fault::from(0b1100_00), Fault::TlbConflict);
    assert_eq!(Fault::from(0b0100_00), Fault::Other(4));
    assert_eq!(Fault::from(0b1111_11), Fault::Other(15));
    assert_eq!(Fault::from(0xFFFF_FFC3), Fault::AddressSize);
    assert_eq!(Fault::parse_level(0), 0);
    assert_eq!(Fault::parse_level(0xFFFF_FFFE), 2);
    assert_eq!(Fault::parse_level(7), 3);
}

#[test]
fn every_exception_class_decodes_as_the_table_says() {
    let iss = 0x00AB_CD16;
    for ec in 0..64u32 {
        for il in 0..2u32 {
            let value = esr(ec, il, iss);
            let expected = match ec {
                0x00 => Syndrome::Unknown,
                0x01 => Syndrome::WfiWfe,
                0x03 | 0x05 => Syndrome::McrMrc,
                0x04 => Syndrome::McrrMrrc,
                0x06 => Syndrome::LdcStc,
                0x07 => Syndrome::SimdFp,
                0x08 => Syndrome::Vmrs,
                0x0C => Syndrome::Mrrc,
                0x0E => Syndrome::IllegalExecutionState,
                0x11 | 0x15 => Syndrome::Svc(0xCD16),
                0x12 | 0x16 => Syndrome::Hvc(0xCD16),
                0x13 | 0x17 => Syndrome::Smc(0xCD16),
                0x18 => Syndrome::MsrMrsSystem,
                0x20 | 0x21 => Syndrome::InstructionAbort { kind: Fault::Other(5), level: 2 },
                0x22 => Syndrome::PCAlignmentFault,
                0x24 | 0x25 => Syndrome::DataAbort { kind: Fault::Other(5), level: 2 },
                0x26 => Syndrome::SpAlignmentFault,
                0x28 | 0x2C => Syndrome::TrappedFpu,
                0x2F => Syndrome::SError,
                0x30 | 0x31 => Syndrome::Breakpoint,
                0x32 | 0x33 => Syndrome::Step,
                0x34 | 0x35 => Syndrome::Watchpoint,
                0x38 | 0x3A | 0x3C => Syndrome::Brk(0xCD16),
                _ => Syndrome::Other(value),
            };
            assert_eq!(Syndrome::from(value), expected);
        }
    }
}

#[test]
fn unknown_class_keeps_the_register_value() {
    assert_eq!(Syndrome::from(0x0800_0000), Syndrome::Other(0x0800_0000));
    assert_eq!(Syndrome::from(0xFFFF_FFFF), Syndrome::Other(0xFFFF_FFFF));
    assert_eq!(Syndrome::from(0), Syndrome::Unknown);
}

#[test]
fn trap_frame_default_is_zero() {
    let tf = TrapFrame::default();
    assert_eq!(tf.stack_pointer, 0);
    assert_eq!(tf.thread_id, 0);
    assert_eq!(tf.program_state, 0);
    assert_eq!(tf.program_counter, 0);
    assert_eq!(tf.floating_point_registers, [0u128; 32]);
    assert_eq!(tf.general_registers, [0u64; 32]);
    assert_eq!(TRAP_FRAME_SIZE, 8 + 8 + 8 + 8 + 32 * 16 + 32 * 8);
}

#[test]
fn interrupt_numbers_and_register_positions() {
    let all = [
        (Interrupt::Timer1, 1, (0, 1)),
        (Interrupt::Timer3, 3, (0, 3)),
        (Interrupt::Usb, 9, (0, 9)),
        (Interrupt::Gpio0, 49, (1, 17)),
        (Interrupt::Gpio1, 50, (1, 18)),
        (Interrupt::Gpio2, 51, (1, 19)),
        (Interrupt::Gpio3, 52, (1, 20)),
        (Interrupt::Uart, 57, (1, 25)),
    ];
    for (interrupt, number, pos) in all {
        assert_eq!(interrupt.number(), number);
        assert_eq!(interrupt.register_pos(), pos);
        assert_eq!(interrupt.mask(), 1u32 << pos.1);
    }
}

#[test]
fn sd_init_status() {
    assert_eq!(Sd::new(0), Ok(Sd));
    assert_eq!(Sd::new(-1), Err(Error::Timeout));
    assert_eq!(Sd::new(-2), Err(Error::ControllerFailure));
    assert_eq!(Sd::new(-3), Ok(Sd));
}

#[test]
fn sd_read_is_checked() {
    let sd = Sd::new(0).unwrap();
    assert_eq!(sd.check_read(0, 512), Ok(0));
    assert_eq!(sd.check_read(2147483647, 4096), Ok(2147483647));
    assert_eq!(sd.check_read(0, 511), Err(ReadError::InvalidInput));
    assert_eq!(sd.check_read(2147483648, 512), Err(ReadError::InvalidInput));
}

#[test]
fn sd_read_result() {
    let sd = Sd::new(0).unwrap();
    assert_eq!(sd.read_result(512, 0), Ok(512));
    assert_eq!(sd.read_result(1, -1), Ok(1));
    assert_eq!(sd.read_result(0, -1), Err(ReadError::TimedOut));
    assert_eq!(sd.read_result(0, -2), Err(ReadError::Other));
    assert_eq!(sd.read_result(-1, -1), Err(ReadError::Other));
    assert_eq!(sd.read_result(0, 0), Err(ReadError::Other));
}

#[test]
fn wait_micros_scales_by_a_thousand() {
    assert_eq!(wait_micros(0), 0);
    assert_eq!(wait_micros(3), 3000);
    assert_eq!(wait_micros(u32::MAX), u32::MAX as u64 * 1000);
}

#[test]
fn gpio_register_positions() {
    assert_eq!(fsel_where(0), (0, 0));
    assert_eq!(fsel_where(9), (0, 27));
    assert_eq!(fsel_where(10), (1, 0));
    assert_eq!(fsel_where(16), (1, 18));
    assert_eq!(fsel_where(53), (5, 9));
    assert_eq!(gpio_where(0), (0, 0));
    assert_eq!(gpio_where(31), (0, 31));
    assert_eq!(gpio_where(32), (1, 0));
    assert_eq!(gpio_where(53), (1, 21));
}

#[test]
fn gpio_function_codes() {
    assert_eq!(Function::Input.code(), 0b000);
    assert_eq!(Function::Output.code(), 0b001);
    assert_eq!(Function::Alt0.code(), 0b100);
    assert_eq!(Function::Alt1.code(), 0b101);
    assert_eq!(Function::Alt2.code(), 0b110);
    assert_eq!(Function::Alt3.code(), 0b111);
    assert_eq!(Function::Alt4.code(), 0b011);
    assert_eq!(Function::Alt5.code(), 0b010);
}
