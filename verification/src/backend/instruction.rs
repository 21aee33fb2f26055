//! A 16-bit instruction word and its operand fields.

use vstd::prelude::*;

use crate::text::{hex_text, push_hex};

verus! {

/// Number of bytes that one instruction occupies in memory.
pub const INSTRUCTION_SIZE: usize = 2;

/// One instruction word. The fields are not stored: each accessor derives its
/// field from the word.
#[derive(Clone, Copy, Debug)]
pub struct Instruction(pub u16);

impl Instruction {
    /// The word that two bytes form in big-endian order.
    pub open spec fn spec_new(be_bytes: [u8; 2]) -> Instruction {
        Instruction((be_bytes[0] as int * 256 + be_bytes[1] as int) as u16)
    }

    /// The top four bits: the instruction family.
    pub open spec fn spec_operator_code(&self) -> u8 {
        (self.0 as int / 4096) as u8
    }

    /// The lowest four bits.
    pub open spec fn spec_operand_n(&self) -> u8 {
        (self.0 as int % 16) as u8
    }

    /// The lowest eight bits.
    pub open spec fn spec_operand_nn(&self) -> u8 {
        (self.0 as int % 256) as u8
    }

    /// The lowest twelve bits.
    pub open spec fn spec_operand_nnn(&self) -> usize {
        (self.0 as int % 4096) as usize
    }

    /// The second four bits from the top: the first register index.
    pub open spec fn spec_operand_x(&self) -> usize {
        (self.0 as int / 256 % 16) as usize
    }

    /// The third four bits from the top: the second register index.
    pub open spec fn spec_operand_y(&self) -> usize {
        (self.0 as int / 16 % 16) as usize
    }

    /// The word as four hexadecimal digits, in capital letters.
    pub open spec fn spec_to_string(&self) -> Seq<char> {
        hex_text(self.0 as nat, 4, true)
    }

    #[verifier::when_used_as_spec(spec_new)]
    pub fn new(be_bytes: [u8; 2]) -> (instruction: Self)
        ensures
            instruction == Self::spec_new(be_bytes),
            instruction.0 == be_bytes[0] * 256 + be_bytes[1],
    {
        let high: u16 = be_bytes[0] as u16;
        let low: u16 = be_bytes[1] as u16;
        Instruction(high * 256 + low)
    }

    #[verifier::when_used_as_spec(spec_operator_code)]
    pub fn operator_code(&self) -> (code: u8)
        ensures
            code == self.spec_operator_code(),
            code < 16,
    {
        let word: u16 = self.0;
        assert(word >> 12 == word / 4096) by (bit_vector);
        (word >> 12) as u8
    }

    #[verifier::when_used_as_spec(spec_operand_n)]
    pub fn operand_n(&self) -> (n: u8)
        ensures
            n == self.spec_operand_n(),
            n < 16,
    {
        let word: u16 = self.0;
        assert(word & 0x000F == word % 16) by (bit_vector);
        (word & 0x000F) as u8
    }

    #[verifier::when_used_as_spec(spec_operand_nn)]
    pub fn operand_nn(&self) -> (nn: u8)
        ensures
            nn == self.spec_operand_nn(),
    {
        let word: u16 = self.0;
        assert(word & 0x00FF == word % 256) by (bit_vector);
        (word & 0x00FF) as u8
    }

    #[verifier::when_used_as_spec(spec_operand_nnn)]
    pub fn operand_nnn(&self) -> (nnn: usize)
        ensures
            nnn == self.spec_operand_nnn(),
            nnn < 4096,
    {
        let word: u16 = self.0;
        assert(word & 0x0FFF == word % 4096) by (bit_vector);
        (word & 0x0FFF) as usize
    }

    #[verifier::when_used_as_spec(spec_operand_x)]
    pub fn operand_x(&self) -> (x: usize)
        ensures
            x == self.spec_operand_x(),
            x < 16,
    {
        let word: u16 = self.0;
        assert((word & 0x0F00) >> 8 == word / 256 % 16) by (bit_vector);
        ((word & 0x0F00) >> 8) as usize
    }

    #[verifier::when_used_as_spec(spec_operand_y)]
    pub fn operand_y(&self) -> (y: usize)
        ensures
            y == self.spec_operand_y(),
            y < 16,
    {
        let word: u16 = self.0;
        assert((word & 0x00F0) >> 4 == word / 16 % 16) by (bit_vector);
        ((word & 0x00F0) >> 4) as usize
    }

    /// The word as four hexadecimal digits, in capital letters.
    pub fn to_string(&self) -> (text: String)
        ensures
            text@ == self.spec_to_string(),
    {
        let mut text = String::new();
        push_hex(&mut text, self.0 as usize, 4, true);
        text
    }
}

} // verus!
