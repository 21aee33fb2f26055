//! What holds of every instruction and of every batch.

use vstd::prelude::*;

use super::blit::{display_shaped, lemma_zero_sprite_draws_nothing};
use super::error::{BackendError, BackendErrorKind};
use super::machine::{Flow, Machine};

verus! {

/// An instruction that goes through has read and written within the memory
/// only: its own two bytes, the rows of a sprite that it draws, the three
/// digits that it writes, the registers that it stores or fetches.
pub proof fn lemma_step_stays_in_memory(
    machine: Machine,
    pixels: Seq<Seq<bool>>,
    wrap: bool,
    keys: Seq<bool>,
    random: u8,
)
    requires
        machine.sized(),
        machine.step(pixels, wrap, keys, random).result is Ok,
    ensures
        machine.index + 1 < machine.memory.len(),
        machine.fetch() is Ok,
        ({
            let i = machine.fetch()->Ok_0;
            let code = i.operator_code();
            let nn = i.operand_nn();
            &&& code == 0xD ==> machine.address + i.operand_n() <= machine.memory.len()
            &&& code == 0xF && nn == 0x33 ==> machine.address + 2 < machine.memory.len()
            &&& code == 0xF && (nn == 0x55 || nn == 0x65) ==> machine.address + i.operand_x()
                < machine.memory.len()
        }),
{
    reveal(Machine::execute);
}

/// A draw instruction `Dxyn` whose sprite is all zero bytes reports no
/// collision, whatever the display shows, and leaves every pixel as it was.
pub proof fn lemma_zero_sprite_never_collides(
    machine: Machine,
    pixels: Seq<Seq<bool>>,
    wrap: bool,
    keys: Seq<bool>,
    random: u8,
)
    requires
        machine.sized(),
        display_shaped(pixels),
        machine.fetch() is Ok,
        machine.fetch()->Ok_0.operator_code() == 0xD,
        machine.address + machine.fetch()->Ok_0.operand_n() <= 4096,
        forall|j: int|
            machine.address <= j < machine.address + machine.fetch()->Ok_0.operand_n() ==> machine.memory[j] == 0,
    ensures
        ({
            let step = machine.step(pixels, wrap, keys, random);
            &&& step.result == Ok::<Flow, BackendError>(Flow::Continue)
            &&& step.machine.general[15] == 0
            &&& step.struck == Set::<usize>::empty()
            &&& step.pixels == pixels
        }),
{
    reveal(Machine::execute);
    let i = machine.fetch()->Ok_0;
    let sprite = machine.memory.subrange(machine.address as int, machine.address + i.operand_n());
    let coordinates = (
        machine.general[i.operand_x() as int] as usize,
        machine.general[i.operand_y() as int] as usize,
    );
    lemma_zero_sprite_draws_nothing(pixels, coordinates, sprite, wrap);
}

/// A skip instruction, `3xnn`, `4xnn`, `5xy0` or `9xy0`, moves the program
/// counter on by four bytes where its condition holds and by two where it
/// does not, and changes nothing else.
pub proof fn lemma_skip_moves_by_four_or_two(
    machine: Machine,
    pixels: Seq<Seq<bool>>,
    wrap: bool,
    keys: Seq<bool>,
    random: u8,
)
    requires
        machine.sized(),
        machine.fetch() is Ok,
        ({
            let code = machine.fetch()->Ok_0.operator_code();
            code == 0x3 || code == 0x4 || code == 0x5 || code == 0x9
        }),
    ensures
        ({
            let i = machine.fetch()->Ok_0;
            let step = machine.step(pixels, wrap, keys, random);
            &&& step.result == Ok::<Flow, BackendError>(Flow::Continue)
            &&& step.machine.index == machine.index + if machine.skips(i) { 4int } else { 2int }
            &&& step.machine == Machine { index: step.machine.index, ..machine }
            &&& step.pixels == pixels
            &&& !step.drew
        }),
{
    reveal(Machine::execute);
}

/// The subtractions `8xy5` and `8xy7` leave 1 in the last register where the
/// subtraction needs no borrow, which is where the register that is taken
/// from is not the smaller one, and 0 where it needs one. The shifts `8xy6`
/// and `8xyE` leave there the bit that was shifted out of register `x`.
pub proof fn lemma_flag_of_subtraction_and_shift(
    machine: Machine,
    pixels: Seq<Seq<bool>>,
    wrap: bool,
    keys: Seq<bool>,
    random: u8,
)
    requires
        machine.sized(),
        machine.fetch() is Ok,
        machine.fetch()->Ok_0.operator_code() == 0x8,
        ({
            let n = machine.fetch()->Ok_0.operand_n();
            n == 0x5 || n == 0x6 || n == 0x7 || n == 0xE
        }),
    ensures
        ({
            let i = machine.fetch()->Ok_0;
            let n = i.operand_n();
            let vx = machine.general[i.operand_x() as int];
            let vy = machine.general[i.operand_y() as int];
            let flag = machine.step(pixels, wrap, keys, random).machine.general[15];
            &&& machine.step(pixels, wrap, keys, random).result == Ok::<Flow, BackendError>(Flow::Continue)
            &&& n == 0x5 ==> flag == if vx >= vy { 1u8 } else { 0u8 }
            &&& n == 0x7 ==> flag == if vy >= vx { 1u8 } else { 0u8 }
            &&& n == 0x6 ==> flag == vx % 2
            &&& n == 0xE ==> flag == vx / 128
        }),
{
    reveal(Machine::execute);
}

/// A call `2nnn` goes through where fewer than twelve return addresses are
/// on the stack, and then puts one more there; with twelve it fails with
/// `StackOverflow`. A return `00EE` fails with `StackUnderflow` where the
/// stack is empty, and else continues at the address that it takes off.
pub proof fn lemma_stack_discipline(
    machine: Machine,
    pixels: Seq<Seq<bool>>,
    wrap: bool,
    keys: Seq<bool>,
    random: u8,
)
    requires
        machine.well_formed(),
        machine.fetch() is Ok,
    ensures
        ({
            let i = machine.fetch()->Ok_0;
            let step = machine.step(pixels, wrap, keys, random);
            let failed = |kind: BackendErrorKind|
                step.result == Err::<Flow, BackendError>(
                    BackendError { instruction: Some((machine.index, Some(i))), kind },
                );
            &&& i.operator_code() == 0x2 && machine.stack.len() < 12 ==> step.result is Ok && step.machine.stack
                == machine.stack.push((machine.index + 2) as u16) && step.machine.index == i.operand_nnn()
            &&& i.operator_code() == 0x2 && machine.stack.len() == 12 ==> failed(BackendErrorKind::StackOverflow)
            &&& i.0 == 0x00EE && machine.stack.len() == 0 ==> failed(BackendErrorKind::StackUnderflow)
            &&& i.0 == 0x00EE && machine.stack.len() > 0 ==> step.result is Ok && step.machine.stack
                == machine.stack.drop_last() && step.machine.index == machine.stack.last()
        }),
{
    reveal(Machine::execute);
}

/// An instruction leaves the memory and the registers at their sizes, the
/// stack within its capacity and the address register within twelve bits.
pub proof fn lemma_step_keeps_well_formed(
    machine: Machine,
    pixels: Seq<Seq<bool>>,
    wrap: bool,
    keys: Seq<bool>,
    random: u8,
)
    requires
        machine.well_formed(),
    ensures
        machine.step(pixels, wrap, keys, random).machine.well_formed(),
{
    reveal(Machine::execute);
}

/// A batch leaves the memory and the registers at their sizes, the stack
/// within its capacity and the address register within twelve bits.
pub proof fn lemma_run_keeps_well_formed(
    machine: Machine,
    pixels: Seq<Seq<bool>>,
    wrap: bool,
    keys: Seq<bool>,
    randoms: Seq<u8>,
    n: nat,
)
    requires
        machine.well_formed(),
    ensures
        machine.run(pixels, wrap, keys, randoms, n).machine.well_formed(),
    decreases n,
{
    if n > 0 {
        lemma_run_keeps_well_formed(machine, pixels, wrap, keys, randoms, (n - 1) as nat);
        let before = machine.run(pixels, wrap, keys, randoms, (n - 1) as nat);
        lemma_step_keeps_well_formed(before.machine, before.pixels, wrap, keys, randoms[n - 1]);
    }
}

/// An instruction that fails leaves the engine and the display as it found
/// them, but for the program counter, which is behind the instruction where
/// one was fetched.
pub proof fn lemma_failed_step_changes_nothing(
    machine: Machine,
    pixels: Seq<Seq<bool>>,
    wrap: bool,
    keys: Seq<bool>,
    random: u8,
)
    requires
        machine.sized(),
        machine.step(pixels, wrap, keys, random).result is Err,
    ensures
        ({
            let step = machine.step(pixels, wrap, keys, random);
            &&& step.machine == Machine {
                index: if machine.fetch() is Ok {
                    (machine.index + 2) as usize
                } else {
                    machine.index
                },
                ..machine
            }
            &&& step.pixels == pixels
            &&& !step.drew
            &&& step.struck == Set::<usize>::empty()
        }),
{
    reveal(Machine::execute);
}

/// The random byte matters to the instruction `Cxnn` alone.
pub proof fn lemma_random_byte_is_for_cxnn_alone(
    machine: Machine,
    pixels: Seq<Seq<bool>>,
    wrap: bool,
    keys: Seq<bool>,
    random: u8,
    other: u8,
)
    requires
        machine.fetch() matches Ok(i) ==> i.operator_code() != 0xC,
    ensures
        machine.step(pixels, wrap, keys, random) == machine.step(pixels, wrap, keys, other),
{
    reveal(Machine::execute);
}

/// Only an instruction that looks at the keys ends a batch early: `Ex9E`,
/// `ExA1` or `Fx0A`.
pub proof fn lemma_only_keys_yield(
    machine: Machine,
    pixels: Seq<Seq<bool>>,
    wrap: bool,
    keys: Seq<bool>,
    random: u8,
)
    requires
        machine.sized(),
        machine.step(pixels, wrap, keys, random).result == Ok::<Flow, BackendError>(Flow::Yield),
    ensures
        machine.fetch() is Ok,
        ({
            let i = machine.fetch()->Ok_0;
            ||| i.operator_code() == 0xE && (i.operand_nn() == 0x9E || i.operand_nn() == 0xA1)
            ||| i.operator_code() == 0xF && i.operand_nn() == 0x0A
        }),
{
    reveal(Machine::execute);
}

} // verus!
