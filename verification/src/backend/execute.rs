//! The instructions, family by family, as the engine executes them.

use vstd::prelude::*;

use super::error::{BackendError, BackendErrorKind};
use super::instruction::Instruction;
use super::interfaces::KeyboardState;
use super::machine::{Effect, Flow, Machine};
use super::{Backend, CHARACTER_SIZE, KEY_COUNT, MEMORY_SIZE, REGISTER_COUNT, STACK_SIZE};

verus! {

/// The error of an instruction that was fetched at `at`.
fn fault(at: usize, instruction: Instruction, kind: BackendErrorKind) -> (result: Result<Flow, BackendError>)
    ensures
        result == Err::<Flow, BackendError>(BackendError { instruction: Some((at, Some(instruction))), kind }),
{
    Err(BackendError { instruction: Some((at, Some(instruction))), kind })
}

impl Backend {
    /// Return, jump, call and jump with offset.
    pub(super) fn control(&mut self, instruction: Instruction, at: usize) -> (result: Result<Flow, BackendError>)
        requires
            old(self).index == at + 2,
            at < MEMORY_SIZE,
        ensures
            (Effect { machine: final(self)@, result }) == old(self)@.control(instruction, at),
    {
        let code = instruction.operator_code();
        if code == 0x1 {
            self.index = instruction.operand_nnn();
        } else if code == 0x2 {
            if self.stack.len() >= STACK_SIZE {
                return fault(at, instruction, BackendErrorKind::StackOverflow);
            }
            self.stack.push(self.index as u16);
            self.index = instruction.operand_nnn();
        } else if code == 0xB {
            self.index = self.registers.general[0] as usize + instruction.operand_nnn();
        } else if instruction.operand_nnn() == 0x0EE {
            match self.stack.pop() {
                None => {
                    return fault(at, instruction, BackendErrorKind::StackUnderflow);
                },
                Some(address) => {
                    self.index = address as usize;
                },
            }
        }
        Ok(Flow::Continue)
    }

    /// The skip instructions.
    pub(super) fn skip(&mut self, instruction: Instruction) -> (result: Result<Flow, BackendError>)
        requires
            old(self).index <= MEMORY_SIZE,
        ensures
            (Effect { machine: final(self)@, result }) == old(self)@.skip(instruction),
    {
        let code = instruction.operator_code();
        let vx = self.registers.general[instruction.operand_x()];
        let vy = self.registers.general[instruction.operand_y()];
        let holds = if code == 0x3 {
            vx == instruction.operand_nn()
        } else if code == 0x4 {
            vx != instruction.operand_nn()
        } else if code == 0x5 {
            vx == vy
        } else {
            vx != vy
        };
        if holds {
            self.index += 2;
        }
        Ok(Flow::Continue)
    }

    /// The instructions that put a value into a register without looking at
    /// another.
    pub(super) fn assign(&mut self, instruction: Instruction, random: u8) -> (result: Result<Flow, BackendError>)
        ensures
            (Effect { machine: final(self)@, result }) == old(self)@.assign(instruction, random),
    {
        let code = instruction.operator_code();
        let x = instruction.operand_x();
        let nn = instruction.operand_nn();
        if code == 0x6 {
            self.registers.general[x] = nn;
        } else if code == 0x7 {
            let vx = self.registers.general[x];
            self.registers.general[x] = vx.wrapping_add(nn);
        } else if code == 0xA {
            self.registers.address = instruction.operand_nnn();
        } else {
            self.registers.general[x] = random & nn;
        }
        Ok(Flow::Continue)
    }

    /// Puts `value` into the register `x` and after that the flag into the
    /// last register.
    fn set_flagged(&mut self, x: usize, value: u8, flag: bool)
        requires
            x < REGISTER_COUNT,
        ensures
            final(self)@ == old(self)@.set_flagged(x as int, value, flag),
    {
        self.registers.general[x] = value;
        self.registers.general[15] = if flag { 1 } else { 0 };
    }

    /// The instructions of two registers.
    pub(super) fn arithmetic(&mut self, instruction: Instruction, at: usize) -> (result: Result<Flow, BackendError>)
        ensures
            (Effect { machine: final(self)@, result }) == old(self)@.arithmetic(instruction, at),
    {
        let n = instruction.operand_n();
        let x = instruction.operand_x();
        let vx = self.registers.general[x];
        let vy = self.registers.general[instruction.operand_y()];
        if n == 0x0 {
            self.registers.general[x] = vy;
        } else if n == 0x1 {
            self.registers.general[x] = vx | vy;
        } else if n == 0x2 {
            self.registers.general[x] = vx & vy;
        } else if n == 0x3 {
            self.registers.general[x] = vx ^ vy;
        } else if n == 0x4 {
            let sum: u16 = vx as u16 + vy as u16;
            self.set_flagged(x, (sum % 256) as u8, sum > 255);
        } else if n == 0x5 {
            self.set_flagged(x, vx.wrapping_sub(vy), vx >= vy);
        } else if n == 0x6 {
            assert(vx >> 1 == vx / 2 && (vx & 1 == 1) == (vx % 2 == 1)) by (bit_vector);
            self.set_flagged(x, vx >> 1, vx & 1 == 1);
        } else if n == 0x7 {
            self.set_flagged(x, vy.wrapping_sub(vx), vy >= vx);
        } else if n == 0xE {
            assert(vx << 1 == (vx * 2) % 256 && (vx >> 7 == 1) == (vx >= 128)) by (bit_vector);
            self.set_flagged(x, vx << 1, vx >> 7 == 1);
        } else {
            return fault(at, instruction, BackendErrorKind::UnrecognizedInstruction);
        }
        Ok(Flow::Continue)
    }

    /// The instructions that look at the keys.
    pub(super) fn keys(&mut self, instruction: Instruction, at: usize, keyboard_state: &KeyboardState) -> (result:
        Result<Flow, BackendError>)
        requires
            old(self).index <= MEMORY_SIZE,
        ensures
            (Effect { machine: final(self)@, result }) == old(self)@.keys(instruction, at, keyboard_state@),
    {
        let nn = instruction.operand_nn();
        let x = instruction.operand_x();
        if instruction.operator_code() == 0xE {
            let pressed = keyboard_state.pressed(self.registers.general[x] as usize);
            if nn == 0x9E {
                if pressed {
                    self.index += 2;
                }
            } else if nn == 0xA1 {
                if !pressed {
                    self.index += 2;
                }
            } else {
                return fault(at, instruction, BackendErrorKind::UnrecognizedInstruction);
            }
        } else {
            match keyboard_state.pressed_key() {
                Some(key) => {
                    self.registers.general[x] = key as u8;
                },
                None => {
                    self.index = at;
                },
            }
        }
        Ok(Flow::Yield)
    }

    /// The instructions of the timers and of the address register.
    pub(super) fn misc(&mut self, instruction: Instruction, at: usize) -> (result: Result<Flow, BackendError>)
        ensures
            (Effect { machine: final(self)@, result }) == old(self)@.misc(instruction, at),
    {
        let nn = instruction.operand_nn();
        let x = instruction.operand_x();
        let vx = self.registers.general[x];
        let address = self.registers.address;
        if nn == 0x07 {
            self.registers.general[x] = self.timers.delay;
        } else if nn == 0x15 {
            self.timers.delay = vx;
        } else if nn == 0x18 {
            self.timers.sound = vx;
        } else if nn == 0x1E {
            assert(address & 0xFFF == address % 4096) by (bit_vector);
            let sum: usize = (address & 0xFFF) + vx as usize;
            assert(sum & 0xFFF == sum % 4096) by (bit_vector);
            self.registers.address = sum & 0xFFF;
        } else if nn == 0x29 {
            if vx as usize >= KEY_COUNT {
                return fault(at, instruction, BackendErrorKind::UnrecognizedSprite);
            }
            self.registers.address = vx as usize * CHARACTER_SIZE;
        } else if nn == 0x33 {
            if address >= MEMORY_SIZE - 2 {
                return fault(at, instruction, BackendErrorKind::MemoryOverflow);
            }
            self.memory[address] = vx / 100;
            self.memory[address + 1] = vx / 10 % 10;
            self.memory[address + 2] = vx % 10;
        } else if nn == 0x55 {
            if address >= MEMORY_SIZE - x {
                return fault(at, instruction, BackendErrorKind::MemoryOverflow);
            }
            self.store(x);
        } else if nn == 0x65 {
            if address >= MEMORY_SIZE - x {
                return fault(at, instruction, BackendErrorKind::MemoryOverflow);
            }
            self.fetch_registers(x);
        } else {
            return fault(at, instruction, BackendErrorKind::UnrecognizedInstruction);
        }
        Ok(Flow::Continue)
    }

    /// Stores the registers 0 to `x` in the memory from the address register
    /// on.
    fn store(&mut self, x: usize)
        requires
            x < REGISTER_COUNT,
            old(self).registers.address + x < MEMORY_SIZE,
        ensures
            final(self)@ == (Machine { memory: old(self)@.stored(x as int), ..old(self)@ }),
    {
        let address = self.registers.address;
        let mut i: usize = 0;
        while i <= x
            invariant
                i <= x + 1,
                x < REGISTER_COUNT,
                address + x < MEMORY_SIZE,
                self.registers == old(self).registers,
                self.stack == old(self).stack,
                self.timers == old(self).timers,
                self.index == old(self).index,
                self.loaded == old(self).loaded,
                address == self.registers.address,
                self.memory@ == old(self)@.stored(i - 1),
            decreases x + 1 - i,
        {
            self.memory[address + i] = self.registers.general[i];
            assert(self.memory@ =~= old(self)@.stored(i as int));
            i += 1;
        }
    }

    /// Fetches the registers 0 to `x` from the memory at the address
    /// register.
    fn fetch_registers(&mut self, x: usize)
        requires
            x < REGISTER_COUNT,
            old(self).registers.address + x < MEMORY_SIZE,
        ensures
            final(self)@ == (Machine { general: old(self)@.fetched(x as int), ..old(self)@ }),
    {
        let address = self.registers.address;
        let mut i: usize = 0;
        while i <= x
            invariant
                i <= x + 1,
                x < REGISTER_COUNT,
                address + x < MEMORY_SIZE,
                self.memory == old(self).memory,
                self.stack == old(self).stack,
                self.timers == old(self).timers,
                self.index == old(self).index,
                self.loaded == old(self).loaded,
                address == self.registers.address == old(self).registers.address,
                self.registers.general@ == old(self)@.fetched(i - 1),
            decreases x + 1 - i,
        {
            self.registers.general[i] = self.memory[address + i];
            assert(self.registers.general@ =~= old(self)@.fetched(i as int));
            i += 1;
        }
    }
}

} // verus!
