//! Emulating a string I/O instruction.
//!
//! An emulation is a state that asks for one action at a time: read a
//! register, read guest memory, write to a port. Whoever performs it hands the
//! outcome back, and the state moves on, until it asks for nothing more.
use vstd::prelude::*;

use crate::instruction::{decode, StringIo, Width};

verus! {

/// A register of the vCPU.
#[derive(Clone, Copy, Debug, PartialEq, Eq, Structural)]
pub enum Register {
    Rax,
    Rcx,
    Rdx,
    Rsi,
    Rdi,
    Rip,
    Rflags,
}

/// What an emulation wants done. What the outcome is, where the action has
/// one, is said as an `Option<u64>`: `None` when it failed, else its value
/// (zero, where it has none).
#[derive(Clone, Copy, Debug, PartialEq, Eq, Structural)]
pub enum StringIoAction {
    /// Read a register. The outcome is its value.
    ReadReg(Register),
    /// Write a register.
    WriteReg(Register, u64),
    /// Get access to guest memory.
    AcquireMemory,
    /// Read guest memory. The outcome is what stands there.
    ReadMem { addr: u64, width: Width },
    /// Write guest memory. Whether it failed does not matter.
    WriteMem { addr: u64, width: Width, data: u32 },
    /// Read a port. The outcome is what came in.
    PortIn { port: u16, width: Width },
    /// Write a port. Whether it failed does not matter: the port may have no
    /// handler.
    PortOut { port: u16, width: Width, data: u32 },
    /// Nothing more. Where `handled`, the instruction has been carried out and
    /// the guest may run on; else it is for somebody else to deal with.
    Finish { handled: bool },
}

/// How far an emulation has come.
#[derive(Clone, Copy, Debug, PartialEq, Eq, Structural)]
pub enum Stage {
    ReadPort,
    ReadFlags,
    ReadAddress,
    ReadCount,
    /// `left` elements follow the first.
    AcquireMemory { left: u64 },
    /// Fetching an element; `left` more follow it.
    Load { left: u64 },
    /// Delivering an element; `left` more follow it.
    Store { left: u64, data: u32 },
    WriteAddress,
    WriteCount,
    WriteRip,
    Done { handled: bool },
}

/// The emulation of one string I/O instruction.
#[derive(Clone, Copy, Debug, PartialEq, Eq, Structural)]
pub struct StringIoEmulation {
    pub inst: StringIo,
    /// Where the instruction stands.
    pub exit_rip: u64,
    /// The port, once it has been read.
    pub port: u16,
    /// Whether the address goes down from element to element.
    pub backward: bool,
    /// The address of the current element, once it has been read.
    pub addr: u64,
    pub stage: Stage,
}

/// What a port without a handler reads as.
pub const FLOATING_BUS: u64 = 0xFFFF_FFFF;

/// The lowest bytes of `value`, as many as the width has.
pub open spec fn low_bytes(value: u64, width: Width) -> u32 {
    (value as int % width.modulus() as int) as u32
}

/// The address of element `i` of a string that starts at `addr`. Addresses
/// wrap around.
pub open spec fn element_addr(addr: u64, backward: bool, width: Width, i: nat) -> u64 {
    let distance = i * width.size();
    let target = if backward {
        addr - distance
    } else {
        addr + distance
    };
    (target % 0x1_0000_0000_0000_0000) as u64
}

/// The register that holds the address in guest memory: RSI where it is read,
/// RDI where it is written.
pub open spec fn address_register(inst: StringIo) -> Register {
    if inst.is_out {
        Register::Rsi
    } else {
        Register::Rdi
    }
}

impl StringIoEmulation {
    /// Where the next instruction stands.
    pub open spec fn next_rip(self) -> int {
        self.exit_rip + self.inst.inst_len
    }

    /// Before anything has been done.
    pub open spec fn start(inst: StringIo, exit_rip: u64) -> Self {
        StringIoEmulation {
            inst,
            exit_rip,
            port: 0,
            backward: false,
            addr: 0,
            stage: Stage::ReadPort,
        }
    }

    /// The same emulation, at another stage.
    pub open spec fn at(self, stage: Stage) -> Self {
        StringIoEmulation { stage, ..self }
    }

    /// Given up: the instruction is left to somebody else.
    pub open spec fn declined(self) -> Self {
        self.at(Stage::Done { handled: false })
    }

    /// The state after the outcome of the action that this state asks for.
    pub open spec fn next(self, outcome: Option<u64>) -> Self {
        match (self.stage, outcome) {
            (Stage::ReadPort, Some(rdx)) => StringIoEmulation {
                port: (rdx % 0x1_0000) as u16,
                ..self.at(Stage::ReadFlags)
            },
            (Stage::ReadFlags, Some(rflags)) => StringIoEmulation {
                backward: (rflags / 0x400) % 2 == 1,
                ..self.at(Stage::ReadAddress)
            },
            (Stage::ReadAddress, Some(addr)) => StringIoEmulation {
                addr,
                ..self.at(
                    if self.inst.has_rep {
                        Stage::ReadCount
                    } else {
                        Stage::AcquireMemory { left: 0 }
                    },
                )
            },
            (Stage::ReadCount, Some(count)) => self.at(
                if count == 0 {
                    Stage::WriteRip
                } else {
                    Stage::AcquireMemory { left: (count - 1) as u64 }
                },
            ),
            (Stage::AcquireMemory { left }, Some(_)) => self.at(Stage::Load { left }),
            (Stage::Load { left }, Some(value)) => self.at(
                Stage::Store { left, data: low_bytes(value, self.inst.width) },
            ),
            (Stage::Load { left }, None) => if self.inst.is_out {
                self.declined()
            } else {
                self.at(Stage::Store { left, data: low_bytes(FLOATING_BUS, self.inst.width) })
            },
            (Stage::Store { left, .. }, _) => StringIoEmulation {
                addr: element_addr(self.addr, self.backward, self.inst.width, 1),
                ..self.at(
                    if left == 0 {
                        Stage::WriteAddress
                    } else {
                        Stage::Load { left: (left - 1) as u64 }
                    },
                )
            },
            (Stage::WriteAddress, Some(_)) => self.at(
                if self.inst.has_rep {
                    Stage::WriteCount
                } else {
                    Stage::WriteRip
                },
            ),
            (Stage::WriteCount, Some(_)) => self.at(Stage::WriteRip),
            (Stage::WriteRip, Some(_)) => self.at(Stage::Done { handled: true }),
            (Stage::Done { .. }, _) => self,
            (_, None) => self.declined(),
        }
    }

    /// What this state asks for.
    pub open spec fn wants(self) -> StringIoAction {
        let width = self.inst.width;
        match self.stage {
            Stage::ReadPort => StringIoAction::ReadReg(Register::Rdx),
            Stage::ReadFlags => StringIoAction::ReadReg(Register::Rflags),
            Stage::ReadAddress => StringIoAction::ReadReg(address_register(self.inst)),
            Stage::ReadCount => StringIoAction::ReadReg(Register::Rcx),
            Stage::AcquireMemory { .. } => StringIoAction::AcquireMemory,
            Stage::Load { .. } => if self.inst.is_out {
                StringIoAction::ReadMem { addr: self.addr, width }
            } else {
                StringIoAction::PortIn { port: self.port, width }
            },
            Stage::Store { data, .. } => if self.inst.is_out {
                StringIoAction::PortOut { port: self.port, width, data }
            } else {
                StringIoAction::WriteMem { addr: self.addr, width, data }
            },
            Stage::WriteAddress => StringIoAction::WriteReg(address_register(self.inst), self.addr),
            Stage::WriteCount => StringIoAction::WriteReg(Register::Rcx, 0),
            Stage::WriteRip => StringIoAction::WriteReg(Register::Rip, self.next_rip() as u64),
            Stage::Done { handled } => StringIoAction::Finish { handled },
        }
    }

    /// Whether the address of the next instruction, where it is wanted now, is
    /// one: an instruction at the very end of the address space has none.
    pub open spec fn rip_fits(self) -> bool {
        self.stage is WriteRip ==> self.next_rip() <= u64::MAX
    }

    /// The register that holds the address in guest memory.
    pub fn addr_reg(&self) -> (reg: Register)
        ensures
            reg == address_register(self.inst),
            self.inst.is_out ==> reg is Rsi,
            !self.inst.is_out ==> reg is Rdi,
    {
        if self.inst.is_out {
            Register::Rsi
        } else {
            Register::Rdi
        }
    }

    /// Whether [`StringIoEmulation::action`] can be asked: the address of the
    /// next instruction, where it is wanted now, does not overflow.
    pub fn has_action(&self) -> (has: bool)
        ensures
            has == self.rip_fits(),
            has <==> !(self.stage is WriteRip) || self.exit_rip + self.inst.inst_len <= u64::MAX,
    {
        match self.stage {
            Stage::WriteRip => self.exit_rip <= u64::MAX - self.inst.inst_len,
            _ => true,
        }
    }

    /// What is to be done now.
    pub fn action(&self) -> (action: StringIoAction)
        requires
            self.rip_fits(),
        ensures
            action == self.wants(),
    {
        let width = self.inst.width;
        match self.stage {
            Stage::ReadPort => StringIoAction::ReadReg(Register::Rdx),
            Stage::ReadFlags => StringIoAction::ReadReg(Register::Rflags),
            Stage::ReadAddress => StringIoAction::ReadReg(self.addr_reg()),
            Stage::ReadCount => StringIoAction::ReadReg(Register::Rcx),
            Stage::AcquireMemory { .. } => StringIoAction::AcquireMemory,
            Stage::Load { .. } => if self.inst.is_out {
                StringIoAction::ReadMem { addr: self.addr, width }
            } else {
                StringIoAction::PortIn { port: self.port, width }
            },
            Stage::Store { data, .. } => if self.inst.is_out {
                StringIoAction::PortOut { port: self.port, width, data }
            } else {
                StringIoAction::WriteMem { addr: self.addr, width, data }
            },
            Stage::WriteAddress => StringIoAction::WriteReg(self.addr_reg(), self.addr),
            Stage::WriteCount => StringIoAction::WriteReg(Register::Rcx, 0),
            Stage::WriteRip => StringIoAction::WriteReg(
                Register::Rip,
                self.exit_rip + self.inst.inst_len,
            ),
            Stage::Done { handled } => StringIoAction::Finish { handled },
        }
    }

    /// Takes the outcome of the action that was asked for.
    pub fn proceed(&mut self, outcome: Option<u64>)
        ensures
            *final(self) == old(self).next(outcome),
    {
        match (self.stage, outcome) {
            (Stage::ReadPort, Some(rdx)) => {
                assert(rdx as u16 == rdx % 0x1_0000) by (bit_vector);
                self.port = rdx as u16;
                self.stage = Stage::ReadFlags;
            },
            (Stage::ReadFlags, Some(rflags)) => {
                assert((rflags & (1u64 << 10) != 0) == ((rflags / 0x400) % 2 == 1))
                    by (bit_vector);
                self.backward = rflags & (1u64 << 10) != 0;
                self.stage = Stage::ReadAddress;
            },
            (Stage::ReadAddress, Some(addr)) => {
                self.addr = addr;
                self.stage = if self.inst.has_rep {
                    Stage::ReadCount
                } else {
                    Stage::AcquireMemory { left: 0 }
                };
            },
            (Stage::ReadCount, Some(count)) => {
                self.stage = if count == 0 {
                    Stage::WriteRip
                } else {
                    Stage::AcquireMemory { left: count - 1 }
                };
            },
            (Stage::AcquireMemory { left }, Some(_)) => {
                self.stage = Stage::Load { left };
            },
            (Stage::Load { left }, Some(value)) => {
                self.stage = Stage::Store { left, data: truncate(value, self.inst.width) };
            },
            (Stage::Load { left }, None) => {
                self.stage = if self.inst.is_out {
                    Stage::Done { handled: false }
                } else {
                    Stage::Store { left, data: truncate(FLOATING_BUS, self.inst.width) }
                };
            },
            (Stage::Store { left, .. }, _) => {
                let size: u64 = self.inst.width.bytes() as u64;
                self.addr = if self.backward {
                    self.addr.wrapping_sub(size)
                } else {
                    self.addr.wrapping_add(size)
                };
                self.stage = if left == 0 {
                    Stage::WriteAddress
                } else {
                    Stage::Load { left: left - 1 }
                };
            },
            (Stage::WriteAddress, Some(_)) => {
                self.stage = if self.inst.has_rep {
                    Stage::WriteCount
                } else {
                    Stage::WriteRip
                };
            },
            (Stage::WriteCount, Some(_)) => {
                self.stage = Stage::WriteRip;
            },
            (Stage::WriteRip, Some(_)) => {
                self.stage = Stage::Done { handled: true };
            },
            (Stage::Done { .. }, _) => {},
            (_, None) => {
                self.stage = Stage::Done { handled: false };
            },
        }
    }
}

/// The lowest bytes of `value`, as many as the width has.
fn truncate(value: u64, width: Width) -> (data: u32)
    ensures
        data == low_bytes(value, width),
{
    assert(value as u8 == value % 0x100) by (bit_vector);
    assert(value as u16 == value % 0x1_0000) by (bit_vector);
    assert(value as u32 == value % 0x1_0000_0000) by (bit_vector);
    match width {
        Width::Byte => (value as u8) as u32,
        Width::Word => (value as u16) as u32,
        Width::Dword => value as u32,
    }
}

/// Starts to emulate the instruction that `bytes` hold and that stands at
/// `exit_rip`. `None` if it is not one of string I/O.
pub fn emulate_string_io(bytes: &[u8], exit_rip: u64) -> (emulation: Option<StringIoEmulation>)
    ensures
        emulation == (match crate::instruction::decoded(bytes@) {
            Some(inst) => Some(StringIoEmulation::start(inst, exit_rip)),
            None => None,
        }),
{
    match decode(bytes) {
        Some(inst) => Some(
            StringIoEmulation {
                inst,
                exit_rip,
                port: 0,
                backward: false,
                addr: 0,
                stage: Stage::ReadPort,
            },
        ),
        None => None,
    }
}

} // verus!
