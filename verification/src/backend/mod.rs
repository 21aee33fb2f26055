//! The engine and the devices it talks to.

use vstd::prelude::*;

use crate::defaults;

pub mod blit;
pub mod error;
mod execute;
pub mod instruction;
pub mod interfaces;
pub mod laws;
pub mod machine;

pub use error::{BackendError, BackendErrorKind};
pub use instruction::Instruction;
pub use machine::{Flow, Machine, Run, Status, Step};

use interfaces::{DisplayBuffer, KeyboardState};

verus! {

/// Number of pixel rows of the display.
pub const DISPLAY_BUFFER_HEIGHT: usize = 32;

/// Number of pixel columns of the display.
pub const DISPLAY_BUFFER_WIDTH: usize = 64;

/// Number of bytes of the sprite of one character of the font.
pub const CHARACTER_SIZE: usize = 5;

/// Number of bytes of the font: one character for each key.
pub const FONT_SIZE: usize = CHARACTER_SIZE * KEY_COUNT;

/// The number of instructions that a run at full speed executes in one tick.
pub const INSTRUCTIONS_PER_TICK: u16 = 700;

/// Number of keys of the key pad.
pub const KEY_COUNT: usize = 16;

/// The address at which a program starts. The memory below it holds the font.
pub const MEMORY_PADDING: usize = 512;

/// Number of bytes of the memory.
pub const MEMORY_SIZE: usize = 4096;

/// Number of general registers.
pub const REGISTER_COUNT: usize = 16;

/// The greatest number of return addresses that the stack holds.
pub const STACK_SIZE: usize = 12;

/// `rand::random::<u8>()`: a byte from the random number generator of the
/// thread. Any byte may come.
#[verifier::external_body]
fn random_byte() -> u8 {
    rand::random::<u8>()
}

/// The engine: memory, registers, stack, timers and program counter.
pub struct Backend {
    /// The program counter: the address of the instruction that is executed
    /// next.
    pub index: usize,
    /// Whether a program was loaded.
    pub loaded: bool,
    pub memory: [u8; MEMORY_SIZE],
    pub registers: Registers,
    pub stack: Vec<u16>,
    pub timers: Timers,
}

/// The address register and the sixteen general registers, the last of which
/// takes the flags.
pub struct Registers {
    pub address: usize,
    pub general: [u8; REGISTER_COUNT],
}

/// The two timers, each of which a tick counts down by one until it is zero.
pub struct Timers {
    pub delay: u8,
    pub sound: u8,
}

impl View for Backend {
    type V = Machine;

    open spec fn view(&self) -> Machine {
        Machine {
            memory: self.memory@,
            general: self.registers.general@,
            address: self.registers.address,
            stack: self.stack@,
            delay: self.timers.delay,
            sound: self.timers.sound,
            index: self.index,
            loaded: self.loaded,
        }
    }
}

impl Backend {
    /// Loads `program` at the address at which programs start, and `font`, or
    /// the default font where none is given, at address 0. A program that is
    /// longer than the memory above that address, or that has an odd number of
    /// bytes, is refused and nothing changes. Where a program was loaded
    /// before, the memory is zeroed first.
    pub fn load(&mut self, font: Option<&[u8; FONT_SIZE]>, program: &[u8]) -> (result: Result<(), BackendError>)
        ensures
            result is Ok <==> Machine::loadable(program@),
            result is Ok ==> final(self)@ == old(self)@.load(
                match font {
                    Some(font) => font@,
                    None => defaults::FONT@,
                },
                program@,
            ),
            result is Err ==> *final(self) == *old(self) && result->Err_0 == (BackendError {
                instruction: None,
                kind: BackendErrorKind::ProgramInvalid,
            }),
    {
        if program.len() > MEMORY_SIZE - MEMORY_PADDING || program.len() % 2 != 0 {
            return Err(BackendError { instruction: None, kind: BackendErrorKind::ProgramInvalid });
        }
        let ghost before = self@;
        if self.loaded {
            self.memory = [0; MEMORY_SIZE];
        }
        let font: &[u8; FONT_SIZE] = match font {
            Some(font) => font,
            None => &defaults::FONT,
        };
        let mut i: usize = 0;
        while i < FONT_SIZE
            invariant
                i <= FONT_SIZE,
                before.memory.len() == MEMORY_SIZE,
                self@.general == before.general,
                self@.stack == before.stack,
                self.registers.address == before.address,
                self.timers.delay == before.delay,
                self.timers.sound == before.sound,
                self.index == before.index,
                forall|j: int| 0 <= j < i ==> self.memory[j] == font[j],
                forall|j: int|
                    i <= j < MEMORY_SIZE ==> self.memory[j] == if before.loaded {
                        0u8
                    } else {
                        before.memory[j]
                    },
            decreases FONT_SIZE - i,
        {
            self.memory[i] = font[i];
            i += 1;
        }
        let mut i: usize = 0;
        while i < program.len()
            invariant
                i <= program.len() <= MEMORY_SIZE - MEMORY_PADDING,
                before.memory.len() == MEMORY_SIZE,
                self@.general == before.general,
                self@.stack == before.stack,
                self.registers.address == before.address,
                self.timers.delay == before.delay,
                self.timers.sound == before.sound,
                self.index == before.index,
                forall|j: int| 0 <= j < FONT_SIZE ==> self.memory[j] == font[j],
                forall|j: int| 0 <= j < i ==> self.memory[MEMORY_PADDING + j] == program[j],
                forall|j: int|
                    FONT_SIZE <= j < MEMORY_SIZE && !(MEMORY_PADDING <= j < MEMORY_PADDING + i)
                        ==> self.memory[j] == if before.loaded {
                        0u8
                    } else {
                        before.memory[j]
                    },
            decreases program.len() - i,
        {
            self.memory[MEMORY_PADDING + i] = program[i];
            i += 1;
        }
        self.loaded = true;
        assert(self@.memory =~= before.load(font@, program@).memory);
        Ok(())
    }

    /// An engine without a program: the memory and the registers zeroed, the
    /// stack empty, the program counter where programs start.
    #[inline]
    pub fn new() -> (backend: Self)
        ensures
            backend@ == Machine::initial(),
    {
        let backend = Backend {
            index: MEMORY_PADDING,
            loaded: false,
            memory: [0; MEMORY_SIZE],
            registers: Registers { address: 0, general: [0; REGISTER_COUNT] },
            stack: Vec::with_capacity(STACK_SIZE),
            timers: Timers { delay: 0, sound: 0 },
        };
        assert(backend@.memory =~= Machine::initial().memory);
        assert(backend@.general =~= Machine::initial().general);
        backend
    }

    /// Puts the program counter where programs start, zeroes the registers
    /// and the timers and empties the stack. The memory stays, and with it the
    /// program.
    pub fn reset(&mut self)
        ensures
            final(self)@ == old(self)@.reset(),
    {
        self.index = MEMORY_PADDING;
        self.registers.address = 0;
        self.registers.general = [0; REGISTER_COUNT];
        self.stack.clear();
        self.timers.delay = 0;
        self.timers.sound = 0;
        assert(self@.general =~= old(self)@.reset().general);
    }

    /// The instruction at the program counter. Fails with `MemoryOverflow`
    /// where fewer than two bytes of memory are left there.
    pub fn fetch(&self) -> (result: Result<Instruction, BackendError>)
        ensures
            result == self@.fetch(),
    {
        if self.index >= MEMORY_SIZE - 1 {
            return Err(
                BackendError { instruction: Some((self.index, None)), kind: BackendErrorKind::MemoryOverflow },
            );
        }
        Ok(Instruction::new([self.memory[self.index], self.memory[self.index + 1]]))
    }

    /// `Dxyn`: draws the `n` bytes at the address register as a sprite.
    fn draw_sprite(&mut self, instruction: Instruction, at: usize, display_buffer: &mut DisplayBuffer) -> (result:
        Result<Flow, BackendError>)
        requires
            instruction.operator_code() == 0xD,
        ensures
            ({
                let step = old(self)@.execute(
                    old(display_buffer).pixels(),
                    old(display_buffer).options.wrap_sprites,
                    Seq::empty(),
                    instruction,
                    at,
                    0,
                );
                &&& final(self)@ == step.machine
                &&& result == step.result
                &&& final(display_buffer).follows(old(display_buffer), step.pixels, step.drew, step.struck)
            }),
    {
        reveal(Machine::execute);
        let n = instruction.operand_n() as usize;
        let address = self.registers.address;
        if address > MEMORY_SIZE - n {
            return Err(
                BackendError { instruction: Some((at, Some(instruction))), kind: BackendErrorKind::MemoryOverflow },
            );
        }
        let x = self.registers.general[instruction.operand_x()] as usize;
        let y = self.registers.general[instruction.operand_y()] as usize;
        let collided = display_buffer.draw((x, y), &self.memory[address..address + n]);
        self.registers.general[15] = if collided { 1 } else { 0 };
        Ok(Flow::Continue)
    }

    /// Executes the instruction at the program counter, with `random` as the
    /// random byte where the instruction asks for one: the program counter
    /// goes behind the instruction, then the instruction does its work. Where
    /// it fails, the engine stays as the instruction found it.
    pub fn step(&mut self, random: u8, display_buffer: &mut DisplayBuffer, keyboard_state: &KeyboardState) -> (result:
        Result<Flow, BackendError>)
        ensures
            ({
                let step = old(self)@.step(
                    old(display_buffer).pixels(),
                    old(display_buffer).options.wrap_sprites,
                    keyboard_state@,
                    random,
                );
                &&& final(self)@ == step.machine
                &&& result == step.result
                &&& final(display_buffer).follows(old(display_buffer), step.pixels, step.drew, step.struck)
            }),
    {
        let instruction = match self.fetch() {
            Ok(instruction) => instruction,
            Err(error) => {
                return Err(error);
            },
        };
        reveal(Machine::execute);
        let at = self.index;
        self.index += 2;
        let code = instruction.operator_code();
        if code == 0x0 && instruction.operand_nnn() == 0x0E0 {
            display_buffer.clear();
            Ok(Flow::Continue)
        } else if code == 0xD {
            self.draw_sprite(instruction, at, display_buffer)
        } else if code == 0x0 || code == 0x1 || code == 0x2 || code == 0xB {
            self.control(instruction, at)
        } else if code == 0x3 || code == 0x4 || code == 0x5 || code == 0x9 {
            self.skip(instruction)
        } else if code == 0x6 || code == 0x7 || code == 0xA || code == 0xC {
            self.assign(instruction, random)
        } else if code == 0x8 {
            self.arithmetic(instruction, at)
        } else if code == 0xE || (code == 0xF && instruction.operand_nn() == 0x0A) {
            self.keys(instruction, at, keyboard_state)
        } else {
            self.misc(instruction, at)
        }
    }

    /// Whether `after`, `display_after` and `result` are what a tick of `n`
    /// instructions with the random bytes `randoms` makes of a loaded engine
    /// `before` and of the display `display_before`: the timers are counted
    /// down once, then the batch runs. The result is the error of the
    /// instruction that failed, or the address and the word of the
    /// instruction that was executed last.
    pub open spec fn ticks(
        before: Machine,
        display_before: &DisplayBuffer,
        keys: Seq<bool>,
        randoms: Seq<u8>,
        n: nat,
        after: Machine,
        display_after: &DisplayBuffer,
        result: Result<(usize, Instruction), BackendError>,
    ) -> bool {
        Self::ticks_from(before.ticked(), display_before, keys, randoms, n, after, display_after, result)
    }

    /// Counts both timers down by one and executes up to `n` instructions.
    /// An instruction that looks at the keys ends the batch early. Returns
    /// the address and the word of the instruction that was executed last,
    /// or the error of the instruction that failed. Without a program
    /// nothing happens and the tick fails with `ProgramNotLoaded`.
    ///
    /// An instruction `Cxnn` draws a random byte, so the outcome is that of
    /// the batch for some random bytes.
    pub fn tick(&mut self, n: u16, devices: (&mut DisplayBuffer, &KeyboardState)) -> (result: Result<
        (usize, Instruction),
        BackendError,
    >)
        requires
            n > 0,
        ensures
            !old(self).loaded ==> result == Err::<(usize, Instruction), BackendError>(
                BackendError { instruction: None, kind: BackendErrorKind::ProgramNotLoaded },
            ) && final(self)@ == old(self)@ && *final(devices.0) == *old(devices.0),
            old(self).loaded ==> exists|randoms: Seq<u8>|
                randoms.len() == n && #[trigger] Self::ticks(
                    old(self)@,
                    old(devices.0),
                    devices.1@,
                    randoms,
                    n as nat,
                    final(self)@,
                    final(devices.0),
                    result,
                ),
    {
        let (display_buffer, keyboard_state) = devices;
        let ghost display_start = *display_buffer;
        if !self.loaded {
            return Err(BackendError { instruction: None, kind: BackendErrorKind::ProgramNotLoaded });
        }
        self.timers.delay = self.timers.delay.saturating_sub(1);
        self.timers.sound = self.timers.sound.saturating_sub(1);

        let ghost start = self@;
        let ghost pixels = display_buffer.pixels();
        let ghost wrap = display_buffer.options.wrap_sprites;
        let ghost keys = keyboard_state@;
        let ghost mut randoms = Seq::<u8>::empty();
        let mut last = (self.index, Instruction(0));
        let mut i: u16 = 0;
        proof {
            assert(start == old(self)@.ticked());
            reveal(Backend::in_batch);
        }
        while i < n
            invariant
                i <= n,
                n > 0,
                old(self).loaded,
                display_start == *old(devices.0),
                keyboard_state == devices.1,
                *final(display_buffer) == *final(devices.0),
                randoms.len() == i,
                start == old(self)@.ticked(),
                pixels == display_start.pixels(),
                wrap == display_start.options.wrap_sprites,
                keys == keyboard_state@,
                Self::in_batch(start, &display_start, keys, randoms, i as nat, self@, display_buffer, last),
            decreases n - i,
        {
            let fetched = self.fetch();
            let random = match fetched {
                Ok(instruction) => if instruction.operator_code() == 0xC {
                    random_byte()
                } else {
                    0
                },
                Err(_) => 0,
            };
            let at = self.index;
            let ghost machine_before = self@;
            let ghost display_before = *display_buffer;
            let ghost padded = randoms.push(random) + Seq::new((n - i - 1) as nat, |j: int| 0u8);
            let result = self.step(random, display_buffer, keyboard_state);
            proof {
                Self::lemma_batch_step(
                    start,
                    &display_start,
                    keys,
                    randoms,
                    i as nat,
                    n as nat,
                    machine_before,
                    &display_before,
                    last,
                    random,
                    self@,
                    display_buffer,
                );
                randoms = randoms.push(random);
            }
            i += 1;
            match result {
                Err(error) => {
                    assert(Self::ticks(
                        old(self)@,
                        &display_start,
                        keys,
                        padded,
                        n as nat,
                        self@,
                        display_buffer,
                        Err(error),
                    ));
                    return Err(error);
                },
                Ok(flow) => {
                    if let Ok(instruction) = fetched {
                        last = (at, instruction);
                    }
                    if flow == Flow::Yield {
                        assert(Self::ticks(
                            old(self)@,
                            &display_start,
                            keys,
                            padded,
                            n as nat,
                            self@,
                            display_buffer,
                            Ok(last),
                        ));
                        return Ok(last);
                    }
                },
            }
        }
        proof {
            reveal(Backend::in_batch);
            assert(Self::ticks(
                old(self)@,
                &display_start,
                keys,
                randoms,
                n as nat,
                self@,
                display_buffer,
                Ok(last),
            ));
        }
        Ok(last)
    }

    /// Whether `machine`, `display` and `last` are what the first `i`
    /// instructions of a batch have made of `start` and `display_before`, and
    /// the batch goes on.
    #[verifier::opaque]
    spec fn in_batch(
        start: Machine,
        display_before: &DisplayBuffer,
        keys: Seq<bool>,
        randoms: Seq<u8>,
        i: nat,
        machine: Machine,
        display: &DisplayBuffer,
        last: (usize, Instruction),
    ) -> bool {
        let run = start.run(display_before.pixels(), display_before.options.wrap_sprites, keys, randoms, i);
        &&& run.status is Running
        &&& machine == run.machine
        &&& display.follows(display_before, run.pixels, run.drew, run.struck)
        &&& i > 0 ==> run.last == Some(last)
    }

    /// One more instruction of a batch: where it lets the batch go on, the
    /// batch is one instruction further; where it ends the batch, the tick is
    /// done, with the random bytes that were read and any bytes behind them.
    proof fn lemma_batch_step(
        start: Machine,
        display_start: &DisplayBuffer,
        keys: Seq<bool>,
        randoms: Seq<u8>,
        i: nat,
        n: nat,
        machine: Machine,
        display: &DisplayBuffer,
        last: (usize, Instruction),
        random: u8,
        machine_after: Machine,
        display_after: &DisplayBuffer,
    )
        requires
            i < n,
            randoms.len() == i,
            Self::in_batch(start, display_start, keys, randoms, i, machine, display, last),
            ({
                let step = machine.step(display.pixels(), display.options.wrap_sprites, keys, random);
                machine_after == step.machine && display_after.follows(
                    display,
                    step.pixels,
                    step.drew,
                    step.struck,
                )
            }),
        ensures
            ({
                let step = machine.step(display.pixels(), display.options.wrap_sprites, keys, random);
                let fetched = machine.fetch();
                let next = match fetched {
                    Ok(instruction) => (machine.index, instruction),
                    Err(_) => last,
                };
                let padded = randoms.push(random) + Seq::new((n - i - 1) as nat, |j: int| 0u8);
                &&& fetched is Err ==> step.result is Err
                &&& step.result == Ok::<Flow, BackendError>(Flow::Continue) ==> Self::in_batch(
                    start,
                    display_start,
                    keys,
                    randoms.push(random),
                    i + 1,
                    machine_after,
                    display_after,
                    next,
                )
                &&& step.result matches Err(error) ==> padded.len() == n && Self::ticks_from(
                    start,
                    display_start,
                    keys,
                    padded,
                    n,
                    machine_after,
                    display_after,
                    Err(error),
                )
                &&& step.result == Ok::<Flow, BackendError>(Flow::Yield) ==> padded.len() == n && Self::ticks_from(
                    start,
                    display_start,
                    keys,
                    padded,
                    n,
                    machine_after,
                    display_after,
                    Ok(next),
                )
            }),
    {
        reveal(Backend::in_batch);
        let pixels = display_start.pixels();
        let wrap = display_start.options.wrap_sprites;
        let longer = randoms.push(random);
        let before = start.run(pixels, wrap, keys, randoms, i);
        start.lemma_run_reads_prefix(pixels, wrap, keys, randoms, longer, i);
        let step = machine.step(display.pixels(), wrap, keys, random);
        display_after.lemma_follows_chain(
            display,
            display_start,
            step.pixels,
            before.drew,
            before.struck,
            step.drew,
            step.struck,
        );
        let run = start.run(pixels, wrap, keys, longer, i + 1);
        assert(longer[i as int] == random);
        assert(run.machine == machine_after);
        if !(step.result == Ok::<Flow, BackendError>(Flow::Continue)) {
            Self::lemma_batch_ended(start, pixels, wrap, keys, longer, i + 1, n);
        }
    }

    /// Whether `after`, `display_after` and `result` are what a batch of `n`
    /// instructions with the random bytes `randoms` makes of `start` and of
    /// the display `display_before`.
    pub open spec fn ticks_from(
        start: Machine,
        display_before: &DisplayBuffer,
        keys: Seq<bool>,
        randoms: Seq<u8>,
        n: nat,
        after: Machine,
        display_after: &DisplayBuffer,
        result: Result<(usize, Instruction), BackendError>,
    ) -> bool {
        let run = start.run(display_before.pixels(), display_before.options.wrap_sprites, keys, randoms, n);
        &&& after == run.machine
        &&& display_after.follows(display_before, run.pixels, run.drew, run.struck)
        &&& match run.status {
            Status::Failed(error) => result == Err::<(usize, Instruction), BackendError>(error),
            _ => run.last is Some && result == Ok::<(usize, Instruction), BackendError>(run.last->0),
        }
    }

    /// A batch that ended after `k` instructions is the batch of `n`
    /// instructions for the random bytes it read, with any bytes behind
    /// them.
    proof fn lemma_batch_ended(
        start: Machine,
        pixels: Seq<Seq<bool>>,
        wrap: bool,
        keys: Seq<bool>,
        randoms: Seq<u8>,
        k: nat,
        n: nat,
    )
        requires
            k <= n,
            randoms.len() == k,
            !(start.run(pixels, wrap, keys, randoms, k).status is Running),
        ensures
            ({
                let padded = randoms + Seq::new((n - k) as nat, |j: int| 0u8);
                padded.len() == n && start.run(pixels, wrap, keys, padded, n) == start.run(
                    pixels,
                    wrap,
                    keys,
                    randoms,
                    k,
                )
            }),
    {
        let padded = randoms + Seq::new((n - k) as nat, |j: int| 0u8);
        start.lemma_run_reads_prefix(pixels, wrap, keys, randoms, padded, k);
        start.lemma_run_stays_ended(pixels, wrap, keys, padded, k, n);
    }
}

} // verus!
