use std::collections::HashMap;

use vcpu_tasks::instruction::Width;
use vcpu_tasks::string_io::{
    emulate_string_io, Register, Stage, StringIoAction, StringIoEmulation,
};

const RIP: u64 = 0x1000;

/// A guest to emulate against: registers, a byte of memory for each address
/// that has any, and a port.
struct Guest {
    regs: Vec<(Register, u64)>,
    mem: HashMap<u64, u8>,
    memory: bool,
    input: Vec<Option<u64>>,
    output: Vec<(u16, Width, u32)>,
    fail: Option<StringIoAction>,
    actions: Vec<StringIoAction>,
}

impl Guest {
    fn new(rdx: u64, rflags: u64, rcx: u64, rsi: u64, rdi: u64) -> Guest {
        Guest {
            regs: vec![
                (Register::Rdx, rdx),
                (Register::Rflags, rflags),
                (Register::Rcx, rcx),
                (Register::Rsi, rsi),
                (Register::Rdi, rdi),
                (Register::Rip, RIP),
            ],
            mem: HashMap::new(),
            memory: true,
            input: Vec::new(),
            output: Vec::new(),
            fail: None,
            actions: Vec::new(),
        }
    }

    fn reg(&self, reg: Register) -> u64 {
        self.regs.iter().find(|r| r.0 == reg).unwrap().1
    }

    fn perform(&mut self, action: StringIoAction) -> Option<u64> {
        self.actions.push(action);
        if self.fail == Some(action) {
            return None;
        }
        match action {
            StringIoAction::ReadReg(reg) => Some(self.reg(reg)),
            StringIoAction::WriteReg(reg, value) => {
                self.regs.iter_mut().find(|r| r.0 == reg).unwrap().1 = value;
                Some(0)
            }
            StringIoAction::AcquireMemory => {
                if self.memory {
                    Some(0)
                } else {
                    None
                }
            }
            StringIoAction::ReadMem { addr, width } => {
                let mut value: u64 = 0;
                for i in 0..width.bytes() as u64 {
                    value |= (*self.mem.get(&(addr.wrapping_add(i)))? as u64) << (8 * i);
                }
                Some(value)
            }
            StringIoAction::WriteMem { addr, width, data } => {
                for i in 0..width.bytes() as u64 {
                    self.mem.insert(addr.wrapping_add(i), (data >> (8 * i)) as u8);
                }
                None
            }
            StringIoAction::PortIn { .. } => {
                if self.input.is_empty() {
                    None
                } else {
                    self.input.remove(0)
                }
            }
            StringIoAction::PortOut { port, width, data } => {
                self.output.push((port, width, data));
                None
            }
            StringIoAction::Finish { .. } => panic!("nothing to perform"),
        }
    }

    /// Emulates, and says whether the instruction was handled.
    fn emulate(&mut self, bytes: &[u8]) -> Option<bool> {
        let mut emulation: StringIoEmulation = emulate_string_io(bytes, RIP)?;
        loop {
            assert!(emulation.has_action());
            match emulation.action() {
                StringIoAction::Finish { handled } => return Some(handled),
                action => {
                    let outcome = self.perform(action);
                    emulation.proceed(outcome);
                }
            }
        }
    }

    fn with_bytes(mut self, addr: u64, bytes: &[u8]) -> Guest {
        for (i, byte) in bytes.iter().enumerate() {
            self.mem.insert(addr + i as u64, *byte);
        }
        self
    }
}

#[test]
fn other_instructions_are_not_emulated() {
    assert_eq!(emulate_string_io(&[0xEC], RIP), None);
    assert_eq!(emulate_string_io(&[], RIP), None);
}

#[test]
fn emulation_starts_with_the_port() {
    let emulation = emulate_string_io(&[0xF3, 0x6E], 7).unwrap();
    assert_eq!(emulation.exit_rip, 7);
    assert_eq!(emulation.inst.inst_len, 2);
    assert_eq!(emulation.stage, Stage::ReadPort);
    assert_eq!(emulation.action(), StringIoAction::ReadReg(Register::Rdx));
}

#[test]
fn outsb_writes_one_byte() {
    let mut guest = Guest::new(0xABCD_03F8, 0, 9, 0x2000, 0).with_bytes(0x2000, &[0x41]);
    assert_eq!(guest.emulate(&[0x6E]), Some(true));
    assert_eq!(guest.output, vec![(0x03F8, Width::Byte, 0x41)]);
    assert_eq!(guest.reg(Register::Rsi), 0x2001);
    assert_eq!(guest.reg(Register::Rcx), 9);
    assert_eq!(guest.reg(Register::Rip), RIP + 1);
}

#[test]
fn rep_outsb_writes_count_bytes_in_order() {
    let mut guest = Guest::new(0x3F8, 0, 3, 0x2000, 0).with_bytes(0x2000, b"abc");
    assert_eq!(guest.emulate(&[0xF3, 0x6E]), Some(true));
    assert_eq!(
        guest.output,
        vec![
            (0x3F8, Width::Byte, 0x61),
            (0x3F8, Width::Byte, 0x62),
            (0x3F8, Width::Byte, 0x63)
        ]
    );
    assert_eq!(guest.reg(Register::Rsi), 0x2003);
    assert_eq!(guest.reg(Register::Rcx), 0);
    assert_eq!(guest.reg(Register::Rip), RIP + 2);
}

#[test]
fn direction_flag_goes_down() {
    let mut guest = Guest::new(0x10, 1 << 10, 2, 0x2002, 0).with_bytes(0x2000, &[1, 2, 3, 4]);
    assert_eq!(guest.emulate(&[0xF3, 0x66, 0x6F]), Some(true));
    assert_eq!(guest.output, vec![(0x10, Width::Word, 0x0403), (0x10, Width::Word, 0x0201)]);
    assert_eq!(guest.reg(Register::Rsi), 0x1FFE);
}

#[test]
fn other_flags_do_not_matter() {
    let flags = !(1u64 << 10);
    let mut guest = Guest::new(0x10, flags, 1, 0x2000, 0).with_bytes(0x2000, &[1]);
    assert_eq!(guest.emulate(&[0x6E]), Some(true));
    assert_eq!(guest.reg(Register::Rsi), 0x2001);
}

#[test]
fn outsd_writes_four_bytes() {
    let mut guest =
        Guest::new(0xCFC, 0, 0, 0x2000, 0).with_bytes(0x2000, &[0x78, 0x56, 0x34, 0x12]);
    assert_eq!(guest.emulate(&[0x6F]), Some(true));
    assert_eq!(guest.output, vec![(0xCFC, Width::Dword, 0x1234_5678)]);
    assert_eq!(guest.reg(Register::Rsi), 0x2004);
}

#[test]
fn rep_insw_fills_memory() {
    let mut guest = Guest::new(0x1F0, 0, 2, 0, 0x3000);
    guest.input = vec![Some(0xFFFF_2211), Some(0x4433)];
    assert_eq!(guest.emulate(&[0x66, 0xF3, 0x6D]), Some(true));
    for (i, byte) in [0x11u8, 0x22, 0x33, 0x44].iter().enumerate() {
        assert_eq!(guest.mem.get(&(0x3000 + i as u64)), Some(byte));
    }
    assert_eq!(guest.mem.len(), 4);
    assert_eq!(guest.reg(Register::Rdi), 0x3004);
    assert_eq!(guest.reg(Register::Rcx), 0);
    assert_eq!(guest.reg(Register::Rip), RIP + 3);
}

#[test]
fn port_without_handler_reads_as_ones() {
    for (bytes, width, data) in [
        (vec![0x6Cu8], Width::Byte, 0xFFu32),
        (vec![0x66, 0x6D], Width::Word, 0xFFFF),
        (vec![0x6D], Width::Dword, 0xFFFF_FFFF),
    ] {
        let mut guest = Guest::new(0x80, 0, 0, 0, 0x3000);
        assert_eq!(guest.emulate(&bytes), Some(true));
        let written = StringIoAction::WriteMem { addr: 0x3000, width, data };
        assert!(guest.actions.contains(&written));
    }
}

#[test]
fn addresses_wrap_around() {
    let mut up = Guest::new(0x80, 0, 2, 0, u64::MAX);
    assert_eq!(up.emulate(&[0xF3, 0x6C]), Some(true));
    assert_eq!(up.reg(Register::Rdi), 1);
    let mut down = Guest::new(0x80, 1 << 10, 1, 0, 2);
    assert_eq!(down.emulate(&[0x6D]), Some(true));
    assert_eq!(down.reg(Register::Rdi), u64::MAX - 1);
}

#[test]
fn zero_count_skips_the_instruction() {
    let mut guest = Guest::new(0x3F8, 0, 0, 0x2000, 0);
    guest.memory = false;
    assert_eq!(guest.emulate(&[0xF3, 0x6E]), Some(true));
    assert_eq!(
        guest.actions,
        vec![
            StringIoAction::ReadReg(Register::Rdx),
            StringIoAction::ReadReg(Register::Rflags),
            StringIoAction::ReadReg(Register::Rsi),
            StringIoAction::ReadReg(Register::Rcx),
            StringIoAction::WriteReg(Register::Rip, RIP + 2),
        ]
    );
}

#[test]
fn complete_run_in_order() {
    let mut guest = Guest::new(0x3F8, 0, 2, 0x2000, 0).with_bytes(0x2000, &[5, 6]);
    assert_eq!(guest.emulate(&[0xF3, 0x6E]), Some(true));
    let width = Width::Byte;
    assert_eq!(
        guest.actions,
        vec![
            StringIoAction::ReadReg(Register::Rdx),
            StringIoAction::ReadReg(Register::Rflags),
            StringIoAction::ReadReg(Register::Rsi),
            StringIoAction::ReadReg(Register::Rcx),
            StringIoAction::AcquireMemory,
            StringIoAction::ReadMem { addr: 0x2000, width },
            StringIoAction::PortOut { port: 0x3F8, width, data: 5 },
            StringIoAction::ReadMem { addr: 0x2001, width },
            StringIoAction::PortOut { port: 0x3F8, width, data: 6 },
            StringIoAction::WriteReg(Register::Rsi, 0x2002),
            StringIoAction::WriteReg(Register::Rcx, 0),
            StringIoAction::WriteReg(Register::Rip, RIP + 2),
        ]
    );
}

#[test]
fn failed_register_access_declines() {
    for fail in [
        StringIoAction::ReadReg(Register::Rdx),
        StringIoAction::ReadReg(Register::Rflags),
        StringIoAction::ReadReg(Register::Rdi),
        StringIoAction::ReadReg(Register::Rcx),
        StringIoAction::AcquireMemory,
        StringIoAction::WriteReg(Register::Rdi, 0x3001),
        StringIoAction::WriteReg(Register::Rcx, 0),
        StringIoAction::WriteReg(Register::Rip, RIP + 2),
    ] {
        let mut guest = Guest::new(0x80, 0, 1, 0, 0x3000);
        guest.fail = Some(fail);
        assert_eq!(guest.emulate(&[0xF3, 0x6C]), Some(false));
        assert_eq!(guest.actions.last(), Some(&fail));
    }
}

#[test]
fn failed_rip_write_declines_a_skip() {
    let mut guest = Guest::new(0x80, 0, 0, 0, 0x3000);
    guest.fail = Some(StringIoAction::WriteReg(Register::Rip, RIP + 2));
    assert_eq!(guest.emulate(&[0xF3, 0x6C]), Some(false));
}

#[test]
fn unreadable_memory_declines_and_writes_no_register() {
    let mut guest = Guest::new(0x3F8, 0, 3, 0x2000, 0).with_bytes(0x2000, &[1]);
    assert_eq!(guest.emulate(&[0xF3, 0x6E]), Some(false));
    assert_eq!(guest.output, vec![(0x3F8, Width::Byte, 1)]);
    assert_eq!(guest.reg(Register::Rsi), 0x2000);
    assert_eq!(guest.reg(Register::Rcx), 3);
    assert_eq!(guest.reg(Register::Rip), RIP);
}

#[test]
fn missing_memory_changes_nothing() {
    let mut guest = Guest::new(0x80, 0, 3, 0, 0x3000);
    guest.memory = false;
    assert_eq!(guest.emulate(&[0xF3, 0x6C]), Some(false));
    assert!(guest.mem.is_empty());
    assert!(guest.actions.iter().all(|a| matches!(
        a,
        StringIoAction::ReadReg(_) | StringIoAction::AcquireMemory
    )));
}

#[test]
fn end_is_final() {
    let mut emulation = emulate_string_io(&[0x6C], RIP).unwrap();
    emulation.proceed(None);
    assert_eq!(emulation.action(), StringIoAction::Finish { handled: false });
    emulation.proceed(Some(1));
    assert_eq!(emulation.action(), StringIoAction::Finish { handled: false });
}

#[test]
fn no_instruction_after_the_last_address() {
    // A count of zero leads straight to the next instruction.
    let mut fits = emulate_string_io(&[0xF3, 0x6C], u64::MAX - 2).unwrap();
    let mut overflows = emulate_string_io(&[0xF3, 0x6C], u64::MAX - 1).unwrap();
    for outcome in [1, 0, 2, 0] {
        assert!(overflows.has_action());
        fits.proceed(Some(outcome));
        overflows.proceed(Some(outcome));
    }
    assert!(fits.has_action());
    assert_eq!(fits.action(), StringIoAction::WriteReg(Register::Rip, u64::MAX));
    assert!(!overflows.has_action());
}

#[test]
fn address_registers() {
    assert_eq!(emulate_string_io(&[0x6C], RIP).unwrap().addr_reg(), Register::Rdi);
    assert_eq!(emulate_string_io(&[0x6E], RIP).unwrap().addr_reg(), Register::Rsi);
}

#[test]
fn largest_count() {
    let mut emulation = emulate_string_io(&[0xF3, 0x6C], RIP).unwrap();
    for outcome in [1, 0, 2, u64::MAX, 0] {
        emulation.proceed(Some(outcome));
    }
    assert_eq!(emulation.stage, Stage::Load { left: u64::MAX - 1 });
}
