//! What can go wrong while the machine runs.

use vstd::prelude::*;

use crate::backend::{BackendError, BackendErrorKind};

verus! {

/// An error that the worker reports to the context that owns the machine.
#[derive(Debug)]
pub enum FrontendError {
    /// The sound could not be played. Holds what the audio device said.
    Play(String),
    /// The engine failed.
    Backend(BackendError),
    /// Reading or writing failed. Holds what the system said.
    IO(String),
}

impl FrontendError {
    /// Whether the machine cannot run on after the error. An engine that has
    /// left its memory, or has no valid program, cannot; one that met a bad
    /// instruction or a full or empty stack can, once it was looked at. Any
    /// error that is not the engine's own is fatal.
    pub open spec fn spec_is_fatal(&self) -> bool {
        match self {
            FrontendError::Backend(error) => error.kind == BackendErrorKind::MemoryOverflow || error.kind
                == BackendErrorKind::ProgramInvalid || error.kind == BackendErrorKind::ProgramNotLoaded,
            _ => true,
        }
    }

    /// The error in words.
    pub open spec fn spec_to_string(&self) -> Seq<char> {
        match self {
            FrontendError::Play(message) => message@,
            FrontendError::Backend(error) => error.spec_to_string(),
            FrontendError::IO(message) => message@,
        }
    }

    /// Whether the machine cannot run on after the error.
    #[verifier::when_used_as_spec(spec_is_fatal)]
    pub fn is_fatal(&self) -> (fatal: bool)
        ensures
            fatal == self.spec_is_fatal(),
    {
        match self {
            FrontendError::Backend(error) => match error.kind {
                BackendErrorKind::MemoryOverflow => true,
                BackendErrorKind::ProgramInvalid => true,
                BackendErrorKind::ProgramNotLoaded => true,
                _ => false,
            },
            _ => true,
        }
    }

    /// The error in words.
    pub fn to_string(&self) -> (text: String)
        ensures
            text@ == self.spec_to_string(),
    {
        match self {
            FrontendError::Play(message) => message.clone(),
            FrontendError::Backend(error) => error.to_string(),
            FrontendError::IO(message) => message.clone(),
        }
    }
}

} // verus!
