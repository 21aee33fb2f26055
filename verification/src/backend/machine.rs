//! The state of the engine as a mathematical value, and what loading, a
//! reset and each instruction make of it.

use vstd::prelude::*;

use super::blit::{blank_grid, draw_collisions, draw_pixels};
use super::error::{BackendError, BackendErrorKind};
use super::instruction::Instruction;
use super::interfaces::KeyboardState;

verus! {

/// How a batch of instructions goes on after one of them.
#[derive(Clone, Copy, Debug, PartialEq, Eq, Structural)]
pub enum Flow {
    /// The next instruction of the batch is executed.
    Continue,
    /// The batch ends here, so that the caller can look at the keys and the
    /// time before the engine runs on.
    Yield,
}

/// The state of the engine.
pub struct Machine {
    /// The 4096 bytes of the memory.
    pub memory: Seq<u8>,
    /// The 16 general registers.
    pub general: Seq<u8>,
    /// The address register.
    pub address: usize,
    /// The return addresses, the latest last.
    pub stack: Seq<u16>,
    /// The delay timer.
    pub delay: u8,
    /// The sound timer.
    pub sound: u8,
    /// The program counter.
    pub index: usize,
    /// Whether a program was loaded.
    pub loaded: bool,
}

/// What an instruction that leaves the display alone makes of the engine.
pub struct Effect {
    pub machine: Machine,
    pub result: Result<Flow, BackendError>,
}

/// What one instruction makes of the engine and of the display.
pub struct Step {
    pub machine: Machine,
    /// The pixels of the display.
    pub pixels: Seq<Seq<bool>>,
    /// Whether the instruction cleared the display or drew on it.
    pub drew: bool,
    /// The pixels, by their keys, that the instruction switched off.
    pub struck: Set<usize>,
    pub result: Result<Flow, BackendError>,
}

/// How far a batch of instructions has come.
pub enum Status {
    /// The next instruction of the batch is due.
    Running,
    /// An instruction ended the batch.
    Yielded,
    /// An instruction failed, which ended the batch.
    Failed(BackendError),
}

/// What a batch of instructions makes of the engine and of the display.
pub struct Run {
    pub machine: Machine,
    /// The pixels of the display.
    pub pixels: Seq<Seq<bool>>,
    /// Whether an instruction cleared the display or drew on it.
    pub drew: bool,
    /// The pixels, by their keys, that an instruction switched off.
    pub struck: Set<usize>,
    /// The address and the word of the instruction that was executed last,
    /// if one was.
    pub last: Option<(usize, Instruction)>,
    pub status: Status,
}

impl Machine {
    /// The state of an engine that was just made.
    pub open spec fn initial() -> Machine {
        Machine {
            memory: Seq::new(4096, |j: int| 0u8),
            general: Seq::new(16, |j: int| 0u8),
            address: 0,
            stack: Seq::empty(),
            delay: 0,
            sound: 0,
            index: 512,
            loaded: false,
        }
    }

    /// Whether the memory and the registers have their sizes.
    pub open spec fn sized(self) -> bool {
        self.memory.len() == 4096 && self.general.len() == 16
    }

    /// Whether the state is one that the engine itself gets into: the stack
    /// within its capacity and the address register within twelve bits.
    pub open spec fn well_formed(self) -> bool {
        self.sized() && self.stack.len() <= 12 && self.address < 4096
    }

    /// Whether a program can be loaded: it fits above the address at which
    /// programs start and is made of whole instructions.
    pub open spec fn loadable(program: Seq<u8>) -> bool {
        program.len() <= 4096 - 512 && program.len() % 2 == 0
    }

    /// The state after `font` and `program` were loaded: the font at address
    /// 0, the program at address 512, zeros elsewhere where a program was
    /// loaded before, and else what was there.
    pub open spec fn load(self, font: Seq<u8>, program: Seq<u8>) -> Machine {
        Machine {
            memory: Seq::new(
                4096,
                |j: int|
                    if j < 80 {
                        font[j]
                    } else if 512 <= j < 512 + program.len() {
                        program[j - 512]
                    } else if self.loaded {
                        0u8
                    } else {
                        self.memory[j]
                    },
            ),
            loaded: true,
            ..self
        }
    }

    /// The state after a reset.
    pub open spec fn reset(self) -> Machine {
        Machine {
            general: Seq::new(16, |j: int| 0u8),
            address: 0,
            stack: Seq::empty(),
            delay: 0,
            sound: 0,
            index: 512,
            ..self
        }
    }

    /// The state after both timers were counted down by one, not below zero.
    pub open spec fn ticked(self) -> Machine {
        Machine {
            delay: if self.delay > 0 { (self.delay - 1) as u8 } else { 0 },
            sound: if self.sound > 0 { (self.sound - 1) as u8 } else { 0 },
            ..self
        }
    }

    /// The instruction at the program counter, where two bytes are left
    /// there.
    pub open spec fn fetch(self) -> Result<Instruction, BackendError> {
        if self.index >= 4095 {
            Err(BackendError { instruction: Some((self.index, None)), kind: BackendErrorKind::MemoryOverflow })
        } else {
            Ok(Instruction::spec_new([self.memory[self.index as int], self.memory[self.index + 1]]))
        }
    }

    /// The state with `value` in the general register `x`.
    pub open spec fn set(self, x: int, value: u8) -> Machine {
        Machine { general: self.general.update(x, value), ..self }
    }

    /// The state with `value` in the general register `x` and after that the
    /// flag in the last register.
    pub open spec fn set_flagged(self, x: int, value: u8, flag: bool) -> Machine {
        Machine { general: self.general.update(x, value).update(15, if flag { 1u8 } else { 0u8 }), ..self }
    }

    /// The state with the program counter at `index`.
    pub open spec fn jump(self, index: int) -> Machine {
        Machine { index: index as usize, ..self }
    }

    /// The instruction went through and the batch goes on.
    pub open spec fn done(self) -> Effect {
        Effect { machine: self, result: Ok(Flow::Continue) }
    }

    /// The instruction went through and the batch ends.
    pub open spec fn yielded(self) -> Effect {
        Effect { machine: self, result: Ok(Flow::Yield) }
    }

    /// The instruction `i`, fetched at `at`, failed, and the state is left as
    /// it is.
    pub open spec fn fault(self, at: usize, i: Instruction, kind: BackendErrorKind) -> Effect {
        Effect { machine: self, result: Err(BackendError { instruction: Some((at, Some(i))), kind }) }
    }

    /// Return, jump, call and jump with offset: `00EE`, `1nnn`, `2nnn`,
    /// `Bnnn`; and the other words of the family `0nnn`, which do nothing.
    pub open spec fn control(self, i: Instruction, at: usize) -> Effect {
        let code = i.operator_code();
        let nnn = i.operand_nnn();
        if code == 0x1 {
            self.jump(nnn as int).done()
        } else if code == 0x2 {
            if self.stack.len() >= 12 {
                self.fault(at, i, BackendErrorKind::StackOverflow)
            } else {
                Machine { stack: self.stack.push(self.index as u16), ..self }.jump(nnn as int).done()
            }
        } else if code == 0xB {
            self.jump(self.general[0] + nnn).done()
        } else if nnn == 0x0EE {
            if self.stack.len() == 0 {
                self.fault(at, i, BackendErrorKind::StackUnderflow)
            } else {
                Machine { stack: self.stack.drop_last(), ..self }.jump(self.stack.last() as int).done()
            }
        } else {
            self.done()
        }
    }

    /// Whether the condition of a skip instruction holds: `3xnn` register
    /// equal to the byte, `4xnn` not equal, `5xy0` the two registers equal,
    /// `9xy0` not equal.
    pub open spec fn skips(self, i: Instruction) -> bool {
        let code = i.operator_code();
        let vx = self.general[i.operand_x() as int];
        let vy = self.general[i.operand_y() as int];
        if code == 0x3 {
            vx == i.operand_nn()
        } else if code == 0x4 {
            vx != i.operand_nn()
        } else if code == 0x5 {
            vx == vy
        } else {
            vx != vy
        }
    }

    /// The skip instructions: the program counter goes on by one more
    /// instruction where the condition holds.
    pub open spec fn skip(self, i: Instruction) -> Effect {
        if self.skips(i) {
            self.jump(self.index + 2).done()
        } else {
            self.done()
        }
    }

    /// The instructions that put a value into a register without looking at
    /// another: `6xnn`, `7xnn`, `Annn`, and `Cxnn` with the random byte
    /// `random`.
    pub open spec fn assign(self, i: Instruction, random: u8) -> Effect {
        let code = i.operator_code();
        let x = i.operand_x() as int;
        let nn = i.operand_nn();
        if code == 0x6 {
            self.set(x, nn).done()
        } else if code == 0x7 {
            self.set(x, ((self.general[x] + nn) % 256) as u8).done()
        } else if code == 0xA {
            Machine { address: i.operand_nnn(), ..self }.done()
        } else {
            self.set(x, random & nn).done()
        }
    }

    /// The instructions of two registers, `8xy0` to `8xyE`. Those that
    /// compute a flag write it after the result, so that it is the flag that
    /// stays where `x` is the last register.
    pub open spec fn arithmetic(self, i: Instruction, at: usize) -> Effect {
        let n = i.operand_n();
        let x = i.operand_x() as int;
        let vx = self.general[x];
        let vy = self.general[i.operand_y() as int];
        if n == 0x0 {
            self.set(x, vy).done()
        } else if n == 0x1 {
            self.set(x, vx | vy).done()
        } else if n == 0x2 {
            self.set(x, vx & vy).done()
        } else if n == 0x3 {
            self.set(x, vx ^ vy).done()
        } else if n == 0x4 {
            self.set_flagged(x, ((vx + vy) % 256) as u8, vx + vy > 255).done()
        } else if n == 0x5 {
            self.set_flagged(x, ((vx - vy) % 256) as u8, vx >= vy).done()
        } else if n == 0x6 {
            self.set_flagged(x, vx / 2, vx % 2 == 1).done()
        } else if n == 0x7 {
            self.set_flagged(x, ((vy - vx) % 256) as u8, vy >= vx).done()
        } else if n == 0xE {
            self.set_flagged(x, ((vx * 2) % 256) as u8, vx >= 128).done()
        } else {
            self.fault(at, i, BackendErrorKind::UnrecognizedInstruction)
        }
    }

    /// The instructions that look at the keys: `Ex9E` and `ExA1`, which skip
    /// where the key in the register is pressed or is not, and `Fx0A`, which
    /// puts the lowest pressed key into the register or, where none is
    /// pressed, goes back to itself. All of them end the batch.
    pub open spec fn keys(self, i: Instruction, at: usize, keys: Seq<bool>) -> Effect {
        let nn = i.operand_nn();
        let x = i.operand_x() as int;
        let vx = self.general[x];
        let pressed = vx < keys.len() && keys[vx as int];
        if i.operator_code() == 0xE {
            if nn == 0x9E {
                if pressed {
                    self.jump(self.index + 2).yielded()
                } else {
                    self.yielded()
                }
            } else if nn == 0xA1 {
                if pressed {
                    self.yielded()
                } else {
                    self.jump(self.index + 2).yielded()
                }
            } else {
                self.fault(at, i, BackendErrorKind::UnrecognizedInstruction)
            }
        } else {
            match KeyboardState::first_pressed(keys) {
                Some(key) => self.set(x, key as u8).yielded(),
                None => self.jump(at as int).yielded(),
            }
        }
    }

    /// The memory with the registers 0 to `x` stored from `self.address` on.
    pub open spec fn stored(self, x: int) -> Seq<u8> {
        Seq::new(
            4096,
            |j: int|
                if self.address <= j <= self.address + x {
                    self.general[j - self.address]
                } else {
                    self.memory[j]
                },
        )
    }

    /// The registers with 0 to `x` fetched from the memory at `self.address`.
    pub open spec fn fetched(self, x: int) -> Seq<u8> {
        Seq::new(
            16,
            |j: int|
                if j <= x {
                    self.memory[self.address + j]
                } else {
                    self.general[j]
                },
        )
    }

    /// The instructions of the timers and of the address register: `Fx07`,
    /// `Fx15`, `Fx18`, `Fx1E`, `Fx29`, `Fx33`, `Fx55`, `Fx65`.
    pub open spec fn misc(self, i: Instruction, at: usize) -> Effect {
        let nn = i.operand_nn();
        let x = i.operand_x() as int;
        let vx = self.general[x];
        if nn == 0x07 {
            self.set(x, self.delay).done()
        } else if nn == 0x15 {
            Machine { delay: vx, ..self }.done()
        } else if nn == 0x18 {
            Machine { sound: vx, ..self }.done()
        } else if nn == 0x1E {
            Machine { address: ((self.address + vx) % 4096) as usize, ..self }.done()
        } else if nn == 0x29 {
            if vx >= 16 {
                self.fault(at, i, BackendErrorKind::UnrecognizedSprite)
            } else {
                Machine { address: (vx * 5) as usize, ..self }.done()
            }
        } else if nn == 0x33 {
            if self.address + 2 >= 4096 {
                self.fault(at, i, BackendErrorKind::MemoryOverflow)
            } else {
                Machine {
                    memory: self.memory.update(self.address as int, vx / 100).update(
                        self.address + 1,
                        vx / 10 % 10,
                    ).update(self.address + 2, vx % 10),
                    ..self
                }.done()
            }
        } else if nn == 0x55 {
            if self.address + x >= 4096 {
                self.fault(at, i, BackendErrorKind::MemoryOverflow)
            } else {
                Machine { memory: self.stored(x), ..self }.done()
            }
        } else if nn == 0x65 {
            if self.address + x >= 4096 {
                self.fault(at, i, BackendErrorKind::MemoryOverflow)
            } else {
                Machine { general: self.fetched(x), ..self }.done()
            }
        } else {
            self.fault(at, i, BackendErrorKind::UnrecognizedInstruction)
        }
    }

    /// What the instruction `i` does that leaves the display alone, by its
    /// family.
    pub open spec fn effect(self, i: Instruction, at: usize, keys: Seq<bool>, random: u8) -> Effect {
        let code = i.operator_code();
        if code == 0x0 || code == 0x1 || code == 0x2 || code == 0xB {
            self.control(i, at)
        } else if code == 0x3 || code == 0x4 || code == 0x5 || code == 0x9 {
            self.skip(i)
        } else if code == 0x6 || code == 0x7 || code == 0xA || code == 0xC {
            self.assign(i, random)
        } else if code == 0x8 {
            self.arithmetic(i, at)
        } else if code == 0xE || (code == 0xF && i.operand_nn() == 0x0A) {
            self.keys(i, at, keys)
        } else {
            self.misc(i, at)
        }
    }

    /// What the instruction `i`, fetched at `at`, makes of the engine, whose
    /// program counter is behind the instruction already, and of the display
    /// with the pixels `pixels`. `00E0` clears the display. `Dxyn` draws the
    /// `n` bytes at the address register as a sprite at the place that the
    /// registers `x` and `y` give, and puts into the last register whether a
    /// pixel was switched off; it fails where the sprite does not lie within
    /// the memory.
    #[verifier::opaque]
    pub open spec fn execute(
        self,
        pixels: Seq<Seq<bool>>,
        wrap: bool,
        keys: Seq<bool>,
        i: Instruction,
        at: usize,
        random: u8,
    ) -> Step {
        let code = i.operator_code();
        if code == 0x0 && i.operand_nnn() == 0x0E0 {
            Step {
                machine: self,
                pixels: blank_grid(),
                drew: true,
                struck: Set::empty(),
                result: Ok(Flow::Continue),
            }
        } else if code == 0xD {
            let n = i.operand_n();
            if self.address + n > 4096 {
                let effect = self.fault(at, i, BackendErrorKind::MemoryOverflow);
                Step {
                    machine: effect.machine,
                    pixels,
                    drew: false,
                    struck: Set::empty(),
                    result: effect.result,
                }
            } else {
                let sprite = self.memory.subrange(self.address as int, self.address + n);
                let coordinates = (
                    self.general[i.operand_x() as int] as usize,
                    self.general[i.operand_y() as int] as usize,
                );
                let struck = draw_collisions(pixels, coordinates, sprite, wrap);
                Step {
                    machine: self.set(15, if struck != Set::<usize>::empty() { 1u8 } else { 0u8 }),
                    pixels: draw_pixels(pixels, coordinates, sprite, wrap),
                    drew: true,
                    struck,
                    result: Ok(Flow::Continue),
                }
            }
        } else {
            let effect = self.effect(i, at, keys, random);
            Step {
                machine: effect.machine,
                pixels,
                drew: false,
                struck: Set::empty(),
                result: effect.result,
            }
        }
    }

    /// What one instruction makes of the engine and of the display: the
    /// instruction at the program counter is fetched, the program counter
    /// goes behind it, and the instruction is executed. Where fewer than two
    /// bytes are left at the program counter, nothing changes and the step
    /// fails.
    pub open spec fn step(self, pixels: Seq<Seq<bool>>, wrap: bool, keys: Seq<bool>, random: u8) -> Step {
        match self.fetch() {
            Err(error) => Step {
                machine: self,
                pixels,
                drew: false,
                struck: Set::empty(),
                result: Err(error),
            },
            Ok(i) => self.jump(self.index + 2).execute(pixels, wrap, keys, i, self.index, random),
        }
    }

    /// What a batch of at most `n` instructions makes of the engine and of
    /// the display. The instructions are executed one after the other, the
    /// one at position `k` with the random byte `randoms[k]`, until one ends
    /// the batch or fails.
    pub open spec fn run(self, pixels: Seq<Seq<bool>>, wrap: bool, keys: Seq<bool>, randoms: Seq<u8>, n: nat) -> Run
        decreases n,
    {
        if n == 0 {
            Run { machine: self, pixels, drew: false, struck: Set::empty(), last: None, status: Status::Running }
        } else {
            let before = self.run(pixels, wrap, keys, randoms, (n - 1) as nat);
            if before.status is Running {
                let step = before.machine.step(before.pixels, wrap, keys, randoms[n - 1]);
                Run {
                    machine: step.machine,
                    pixels: step.pixels,
                    drew: before.drew || step.drew,
                    struck: before.struck.union(step.struck),
                    last: match before.machine.fetch() {
                        Ok(i) => Some((before.machine.index, i)),
                        Err(_) => before.last,
                    },
                    status: match step.result {
                        Ok(Flow::Continue) => Status::Running,
                        Ok(Flow::Yield) => Status::Yielded,
                        Err(error) => Status::Failed(error),
                    },
                }
            } else {
                before
            }
        }
    }

    /// A batch reads only as many random bytes as it has instructions.
    pub proof fn lemma_run_reads_prefix(
        self,
        pixels: Seq<Seq<bool>>,
        wrap: bool,
        keys: Seq<bool>,
        a: Seq<u8>,
        b: Seq<u8>,
        n: nat,
    )
        requires
            forall|k: int| 0 <= k < n ==> a[k] == b[k],
        ensures
            self.run(pixels, wrap, keys, a, n) == self.run(pixels, wrap, keys, b, n),
        decreases n,
    {
        if n > 0 {
            self.lemma_run_reads_prefix(pixels, wrap, keys, a, b, (n - 1) as nat);
        }
    }

    /// A batch that was ended stays as it is, however many instructions it
    /// might have had left.
    pub proof fn lemma_run_stays_ended(
        self,
        pixels: Seq<Seq<bool>>,
        wrap: bool,
        keys: Seq<bool>,
        randoms: Seq<u8>,
        k: nat,
        n: nat,
    )
        requires
            k <= n,
            !(self.run(pixels, wrap, keys, randoms, k).status is Running),
        ensures
            self.run(pixels, wrap, keys, randoms, n) == self.run(pixels, wrap, keys, randoms, k),
        decreases n,
    {
        if n > k {
            self.lemma_run_stays_ended(pixels, wrap, keys, randoms, k, (n - 1) as nat);
        }
    }
}

} // verus!
