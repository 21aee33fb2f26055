//! A virtual machine for a 16-bit instruction set on an 8-bit target: the
//! engine that decodes and executes instructions, the monochrome display with
//! its sprite blitting, the key pad, and the decisions of the scheduler that
//! drives the engine from a worker context.

pub mod backend;
pub mod defaults;
pub mod frontend;
pub mod text;
