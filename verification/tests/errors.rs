use rc_8::backend::{BackendError, BackendErrorKind, Instruction};
use rc_8::frontend::FrontendError;

#[test]
fn error_kinds_in_words() {
    assert_eq!(BackendErrorKind::MemoryOverflow.message(), "attempt to access invalid memory address");
    assert_eq!(BackendErrorKind::ProgramInvalid.message(), "attempt to load invalid program");
    assert_eq!(BackendErrorKind::ProgramNotLoaded.message(), "attempt to run without loading any program");
    assert_eq!(BackendErrorKind::StackOverflow.message(), "attempt to call a coroutine when the stack is full");
    assert_eq!(BackendErrorKind::StackUnderflow.message(), "attempt to return when the stack is empty");
    assert_eq!(BackendErrorKind::UnrecognizedInstruction.message(), "unrecognized instruction");
    assert_eq!(BackendErrorKind::UnrecognizedSprite.message(), "attempt to load unrecognized sprite");
}

#[test]
fn error_with_instruction_and_address_in_words() {
    let error = BackendError {
        instruction: Some((0x2A4, Some(Instruction::new([0x80, 0x0F])))),
        kind: BackendErrorKind::UnrecognizedInstruction,
    };
    assert_eq!(error.to_string(), "instruction 800F at 0x2a4, unrecognized instruction");
    let error = BackendError {
        instruction: Some((0x4, Some(Instruction::new([0x00, 0xEE])))),
        kind: BackendErrorKind::StackUnderflow,
    };
    assert_eq!(error.to_string(), "instruction 00EE at 0x004, attempt to return when the stack is empty");
    let error = BackendError {
        instruction: Some((0x12345, Some(Instruction::new([0xAB, 0xCD])))),
        kind: BackendErrorKind::StackOverflow,
    };
    assert_eq!(error.to_string(), "instruction ABCD at 0x12345, attempt to call a coroutine when the stack is full");
}

#[test]
fn error_with_address_alone_in_words() {
    let error = BackendError { instruction: Some((0xFFF, None)), kind: BackendErrorKind::MemoryOverflow };
    assert_eq!(error.to_string(), "at 0xfff, attempt to access invalid memory address");
    let error = BackendError { instruction: Some((0, None)), kind: BackendErrorKind::MemoryOverflow };
    assert_eq!(error.to_string(), "at 0x0, attempt to access invalid memory address");
    let error = BackendError { instruction: Some((0x1C, None)), kind: BackendErrorKind::MemoryOverflow };
    assert_eq!(error.to_string(), "at 0x1c, attempt to access invalid memory address");
    let error = BackendError { instruction: Some((usize::MAX, None)), kind: BackendErrorKind::MemoryOverflow };
    assert_eq!(error.to_string(), format!("at 0x{:x}, attempt to access invalid memory address", usize::MAX));
}

#[test]
fn error_without_a_place_in_words() {
    let error = BackendError { instruction: None, kind: BackendErrorKind::ProgramInvalid };
    assert_eq!(error.to_string(), "attempt to load invalid program");
    let error = BackendError { instruction: None, kind: BackendErrorKind::ProgramNotLoaded };
    assert_eq!(error.to_string(), "attempt to run without loading any program");
}

#[test]
fn errors_are_written_as_the_standard_formatter_writes_them() {
    for index in [0usize, 1, 9, 10, 15, 16, 255, 256, 0xABC, 0xFFF, 0x1000, 0xFFFF, 0x10000] {
        for word in [0u16, 1, 0x00E0, 0x0ABC, 0x1000, 0xF065, 0xFFFF] {
            let instruction = Instruction::new([(word >> 8) as u8, (word & 0xFF) as u8]);
            assert_eq!(instruction.to_string(), format!("{:04X}", word));
            let error = BackendError {
                instruction: Some((index, Some(instruction))),
                kind: BackendErrorKind::UnrecognizedSprite,
            };
            assert_eq!(
                error.to_string(),
                format!("instruction {:04X} at 0x{:03x}, attempt to load unrecognized sprite", word, index)
            );
        }
    }
}

#[test]
fn engine_errors_that_are_fatal() {
    for (kind, fatal) in [
        (BackendErrorKind::MemoryOverflow, true),
        (BackendErrorKind::ProgramInvalid, true),
        (BackendErrorKind::ProgramNotLoaded, true),
        (BackendErrorKind::StackOverflow, false),
        (BackendErrorKind::StackUnderflow, false),
        (BackendErrorKind::UnrecognizedInstruction, false),
        (BackendErrorKind::UnrecognizedSprite, false),
    ] {
        let error = FrontendError::Backend(BackendError { instruction: None, kind });
        assert_eq!(error.is_fatal(), fatal);
    }
}

#[test]
fn errors_that_are_not_the_engines_are_fatal() {
    assert!(FrontendError::Play(String::from("no device")).is_fatal());
    assert!(FrontendError::IO(String::from("no file")).is_fatal());
}

#[test]
fn frontend_errors_in_words() {
    assert_eq!(FrontendError::Play(String::from("no device")).to_string(), "no device");
    assert_eq!(FrontendError::IO(String::from("no file")).to_string(), "no file");
    let error = FrontendError::Backend(BackendError {
        instruction: Some((0x200, Some(Instruction::new([0x22, 0x00])))),
        kind: BackendErrorKind::StackOverflow,
    });
    assert_eq!(
        error.to_string(),
        "instruction 2200 at 0x200, attempt to call a coroutine when the stack is full"
    );
}
