//! What can go wrong in the engine.

use vstd::prelude::*;
use vstd::string::StringExecFns;

use super::instruction::Instruction;
use crate::text::{hex_text, push_hex};

verus! {

/// An error of the engine, with the place at which it occurred.
#[derive(Clone, Copy, Debug)]
pub struct BackendError {
    /// The address of the offending instruction and, where a word was fetched
    /// there, the instruction. `None` where the error is not about an
    /// instruction.
    pub instruction: Option<(usize, Option<Instruction>)>,
    pub kind: BackendErrorKind,
}

/// The kinds of error of the engine.
#[derive(Clone, Copy, Debug, PartialEq, Eq, Structural)]
pub enum BackendErrorKind {
    /// An address beyond the memory was about to be read or written.
    MemoryOverflow,
    /// The program is too long for the memory or has an odd number of bytes.
    ProgramInvalid,
    /// The engine was told to run before a program was loaded.
    ProgramNotLoaded,
    /// A call was made with the stack full.
    StackOverflow,
    /// A return was made with the stack empty.
    StackUnderflow,
    /// The word is no instruction of the machine.
    UnrecognizedInstruction,
    /// The sprite of a character that the font does not have was asked for.
    UnrecognizedSprite,
}

impl BackendErrorKind {
    /// The kind in words.
    pub open spec fn spec_message(&self) -> Seq<char> {
        match self {
            BackendErrorKind::MemoryOverflow => "attempt to access invalid memory address"@,
            BackendErrorKind::ProgramInvalid => "attempt to load invalid program"@,
            BackendErrorKind::ProgramNotLoaded => "attempt to run without loading any program"@,
            BackendErrorKind::StackOverflow => "attempt to call a coroutine when the stack is full"@,
            BackendErrorKind::StackUnderflow => "attempt to return when the stack is empty"@,
            BackendErrorKind::UnrecognizedInstruction => "unrecognized instruction"@,
            BackendErrorKind::UnrecognizedSprite => "attempt to load unrecognized sprite"@,
        }
    }

    /// The kind in words.
    pub fn message(&self) -> (text: &'static str)
        ensures
            text@ == self.spec_message(),
    {
        match self {
            BackendErrorKind::MemoryOverflow => "attempt to access invalid memory address",
            BackendErrorKind::ProgramInvalid => "attempt to load invalid program",
            BackendErrorKind::ProgramNotLoaded => "attempt to run without loading any program",
            BackendErrorKind::StackOverflow => "attempt to call a coroutine when the stack is full",
            BackendErrorKind::StackUnderflow => "attempt to return when the stack is empty",
            BackendErrorKind::UnrecognizedInstruction => "unrecognized instruction",
            BackendErrorKind::UnrecognizedSprite => "attempt to load unrecognized sprite",
        }
    }
}

impl BackendError {
    /// The error in words: the instruction as four hexadecimal digits and
    /// its address with at least three, as far as they are known, then the
    /// kind.
    pub open spec fn spec_to_string(&self) -> Seq<char> {
        match self.instruction {
            Some((index, Some(instruction))) => "instruction "@ + instruction.spec_to_string() + " at 0x"@
                + hex_text(index as nat, 3, false) + ", "@ + self.kind.spec_message(),
            Some((index, None)) => "at 0x"@ + hex_text(index as nat, 0, false) + ", "@
                + self.kind.spec_message(),
            None => self.kind.spec_message(),
        }
    }

    /// The error in words.
    pub fn to_string(&self) -> (text: String)
        ensures
            text@ == self.spec_to_string(),
    {
        match self.instruction {
            Some((index, Some(instruction))) => {
                let mut text = String::from_str("instruction ");
                let word = instruction.to_string();
                text.append(word.as_str());
                text.append(" at 0x");
                push_hex(&mut text, index, 3, false);
                text.append(", ");
                text.append(self.kind.message());
                text
            },
            Some((index, None)) => {
                let mut text = String::from_str("at 0x");
                push_hex(&mut text, index, 0, false);
                text.append(", ");
                text.append(self.kind.message());
                text
            },
            None => String::from_str(self.kind.message()),
        }
    }
}

} // verus!
