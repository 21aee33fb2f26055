//! The machine as a scheduler runs it: an engine with its display, and what
//! the worker decides in each round of its loop.
//!
//! The worker context itself, its locks and its mailbox are the caller's. In
//! each round it asks [`Frontend::poll`] what the command of the owning
//! context means, and where the machine is to run it calls
//! [`Frontend::advance`] and does what the answer says.

use vstd::prelude::*;
use vstd::string::StringExecFns;

use crate::backend::interfaces::{DisplayBuffer, KeyboardState};
use crate::backend::{interfaces, Backend, BackendError, Instruction, Machine};
use crate::text::{hex_text, push_hex};

pub mod error;
pub mod handle;

pub use error::FrontendError;
pub use handle::{Command, FrontendHandle};

verus! {

/// What the worker posts to the owning context: the trace of an instruction
/// or an error.
pub type Message = Result<String, FrontendError>;

/// The number of instructions of one tick at full speed.
pub const INSTRUCTIONS_PER_TICK: u16 = 18;

/// The time between two ticks at full speed, in milliseconds: a sixtieth of
/// a second.
pub const TICK_INTERVAL_MILLIS: u64 = 16;

/// The time for which a pixel that was switched off fades, in milliseconds:
/// two ticks.
pub const FADE_DURATION_MILLIS: u64 = 32;

/// How the machine runs.
#[derive(Clone, Copy, Debug)]
pub struct Options {
    /// One instruction at a time, with a trace of each and a pause after it.
    pub debug_mode: bool,
    /// Pixels that were switched off fade out, for which the display keeps
    /// the times of the flips.
    pub fade_effect: bool,
    /// Sprites wrap around the edges of the display.
    pub wrap_sprites: bool,
}

impl Default for Options {
    /// At full speed, without fading, with sprites cut off at the edges.
    fn default() -> (options: Self)
        ensures
            options == (Options { debug_mode: false, fade_effect: false, wrap_sprites: false }),
    {
        Options { debug_mode: false, fade_effect: false, wrap_sprites: false }
    }
}

/// An engine with its display.
pub struct Frontend {
    pub backend: Backend,
    pub display_buffer: DisplayBuffer,
    pub options: Options,
}

/// What the command of the owning context means for the worker.
#[derive(Clone, Copy, Debug, PartialEq, Eq, Structural)]
pub enum Poll {
    /// The worker waits until the command changes.
    Wait,
    /// The worker leaves its loop.
    Exit,
    /// The worker runs the machine for a tick, and before that triggers the
    /// sound if `sound` holds.
    Run { sound: bool },
}

/// What the worker does after a tick.
#[derive(Debug)]
pub struct Advance {
    /// What is posted to the owning context, if anything.
    pub message: Option<Message>,
    /// Whether the worker sets the command to `Suspend`, so that it waits in
    /// its next round.
    pub suspend: bool,
    /// Whether the worker leaves its loop, after asking for a repaint.
    pub exit: bool,
    /// Whether the display is handed to the presentation.
    pub present: bool,
    /// Whether the worker sleeps for the tick interval before its next
    /// round.
    pub sleep: bool,
}

impl Frontend {
    /// The trace of an instruction that was executed at `index`.
    pub open spec fn trace(index: usize, instruction: Instruction) -> Seq<char> {
        "Executed intruction "@ + instruction.spec_to_string() + " at 0x"@ + hex_text(index as nat, 3, false)
    }

    /// What a command means for the worker: `Stop` that it leaves, `Suspend`
    /// that it waits, `Run` that it runs, with the sound where the sound
    /// timer is not zero.
    pub open spec fn spec_poll(&self, command: Command) -> Poll {
        match command {
            Command::Run => Poll::Run { sound: self.backend.timers.sound > 0 },
            Command::Suspend => Poll::Wait,
            Command::Stop => Poll::Exit,
        }
    }

    /// The number of instructions of one tick: one in debug mode.
    pub open spec fn spec_budget(&self) -> u16 {
        if self.options.debug_mode {
            1
        } else {
            INSTRUCTIONS_PER_TICK
        }
    }

    /// Whether `advance` is what the worker does after a tick with the
    /// result `outcome`, in debug mode or not, with the display dirty or not.
    ///
    /// A tick that went through is traced in debug mode, and the worker
    /// pauses. An error is posted; after a fatal one, and after any in debug
    /// mode, the worker leaves, else it pauses. Unless the worker leaves, a
    /// dirty display is presented, and at full speed the worker sleeps.
    pub open spec fn settles(
        debug_mode: bool,
        dirty: bool,
        outcome: Result<(usize, Instruction), BackendError>,
        advance: Advance,
    ) -> bool {
        match outcome {
            Ok((index, instruction)) => {
                &&& if debug_mode {
                    advance.message matches Some(Ok(text)) && text@ == Self::trace(index, instruction)
                } else {
                    advance.message is None
                }
                &&& advance.suspend == debug_mode
                &&& !advance.exit
                &&& advance.present == dirty
                &&& advance.sleep == !debug_mode
            },
            Err(error) => {
                let fatal = FrontendError::Backend(error).spec_is_fatal();
                &&& advance.message == Some(Err::<String, FrontendError>(FrontendError::Backend(error)))
                &&& advance.exit == (fatal || debug_mode)
                &&& advance.suspend == !advance.exit
                &&& advance.present == (dirty && !advance.exit)
                &&& advance.sleep == !advance.exit
            },
        }
    }

    /// What a command means for the worker.
    #[verifier::when_used_as_spec(spec_poll)]
    pub fn poll(&self, command: Command) -> (poll: Poll)
        ensures
            poll == self.spec_poll(command),
    {
        match command {
            Command::Run => Poll::Run { sound: self.backend.timers.sound > 0 },
            Command::Suspend => Poll::Wait,
            Command::Stop => Poll::Exit,
        }
    }

    /// The number of instructions of one tick.
    #[verifier::when_used_as_spec(spec_budget)]
    pub fn budget(&self) -> (n: u16)
        ensures
            n == self.spec_budget(),
            n > 0,
    {
        if self.options.debug_mode {
            1
        } else {
            INSTRUCTIONS_PER_TICK
        }
    }

    /// A machine without a program. The display tracks changes where pixels
    /// are to fade, and wraps sprites as the options say.
    #[inline]
    pub fn new(options: Options) -> (frontend: Self)
        ensures
            frontend.backend@ == Machine::initial(),
            frontend.display_buffer.pixels() == crate::backend::blit::blank_grid(),
            frontend.display_buffer.changed@ == Map::<usize, std::time::Instant>::empty(),
            !frontend.display_buffer.dirty,
            frontend.display_buffer.options == (interfaces::Options {
                track_changes: options.fade_effect,
                wrap_sprites: options.wrap_sprites,
            }),
            frontend.options == options,
    {
        Frontend {
            backend: Backend::new(),
            display_buffer: DisplayBuffer::new(
                interfaces::Options { track_changes: options.fade_effect, wrap_sprites: options.wrap_sprites },
            ),
            options,
        }
    }

    /// Resets the engine and clears the display. The program stays.
    pub fn reset(&mut self)
        ensures
            final(self).backend@ == old(self).backend@.reset(),
            final(self).display_buffer.pixels() == crate::backend::blit::blank_grid(),
            final(self).display_buffer.dirty,
            final(self).display_buffer.changed == old(self).display_buffer.changed,
            final(self).display_buffer.options == old(self).display_buffer.options,
            final(self).options == old(self).options,
    {
        self.backend.reset();
        self.display_buffer.clear();
    }

    /// Decides what the worker does after a tick with the result `outcome`,
    /// and takes the dirty mark off a display that is to be presented.
    pub fn settle(&mut self, outcome: Result<(usize, Instruction), BackendError>) -> (advance: Advance)
        ensures
            Self::settles(old(self).options.debug_mode, old(self).display_buffer.dirty, outcome, advance),
            final(self).display_buffer.dirty == (old(self).display_buffer.dirty && advance.exit),
            final(self).display_buffer.buffer == old(self).display_buffer.buffer,
            final(self).display_buffer.changed == old(self).display_buffer.changed,
            final(self).display_buffer.options == old(self).display_buffer.options,
            final(self).backend == old(self).backend,
            final(self).options == old(self).options,
    {
        let debug_mode = self.options.debug_mode;
        let (message, suspend, exit): (Option<Message>, bool, bool) = match outcome {
            Ok((index, instruction)) => {
                if debug_mode {
                    let mut text = String::from_str("Executed intruction ");
                    let word = instruction.to_string();
                    text.append(word.as_str());
                    text.append(" at 0x");
                    push_hex(&mut text, index, 3, false);
                    (Some(Ok(text)), true, false)
                } else {
                    (None, false, false)
                }
            },
            Err(error) => {
                let error = FrontendError::Backend(error);
                let fatal = error.is_fatal();
                let exit = fatal || debug_mode;
                (Some(Err(error)), !exit, exit)
            },
        };
        let present = self.display_buffer.dirty && !exit;
        if present {
            self.display_buffer.dirty = false;
        }
        Advance { message, suspend, exit, present, sleep: !exit && !debug_mode }
    }

    /// One tick of the machine with the keys as they are, and what the
    /// worker does after it. The engine draws its random bytes itself, so the
    /// tick is the one for some random bytes.
    pub fn advance(&mut self, keyboard_state: &KeyboardState) -> (advance: Advance)
        ensures
            Self::advances(*old(self), keyboard_state@, *final(self), advance),
    {
        let n = self.budget();
        let outcome = self.backend.tick(n, (&mut self.display_buffer, keyboard_state));
        let ghost display = self.display_buffer;
        let advance = self.settle(outcome);
        proof {
            assert(Self::ran(
                old(self).backend,
                old(self).display_buffer,
                keyboard_state@,
                old(self).spec_budget(),
                self.backend,
                display,
                outcome,
            ));
            assert(Self::advanced(*old(self), keyboard_state@, *self, advance, outcome, display));
        }
        advance
    }

    /// Whether `after` and `advance` are what a tick with the result
    /// `outcome`, which leaves the display as `display`, and the decision
    /// after it make of `before`.
    pub open spec fn advanced(
        before: Frontend,
        keys: Seq<bool>,
        after: Frontend,
        advance: Advance,
        outcome: Result<(usize, Instruction), BackendError>,
        display: DisplayBuffer,
    ) -> bool {
        &&& Self::ran(
            before.backend,
            before.display_buffer,
            keys,
            before.spec_budget(),
            after.backend,
            display,
            outcome,
        )
        &&& Self::settles(before.options.debug_mode, display.dirty, outcome, advance)
        &&& after.display_buffer.dirty == (display.dirty && advance.exit)
        &&& after.display_buffer.buffer == display.buffer
        &&& after.display_buffer.changed == display.changed
        &&& after.display_buffer.options == display.options
        &&& after.options == before.options
    }

    /// Whether `after` and `advance` are what one tick and the decision
    /// after it make of `before`, whatever the tick drew as random bytes.
    pub open spec fn advances(before: Frontend, keys: Seq<bool>, after: Frontend, advance: Advance) -> bool {
        exists|outcome: Result<(usize, Instruction), BackendError>, display: DisplayBuffer| #[trigger]
            Self::advanced(before, keys, after, advance, outcome, display)
    }

    /// Whether `after` is what one round of the worker's loop makes of
    /// `before` where the round finds the command `command`: the machine
    /// runs for a tick where the command lets it, and else is not touched.
    pub open spec fn round(before: Frontend, command: Command, keys: Seq<bool>, after: Frontend) -> bool {
        match before.spec_poll(command) {
            Poll::Wait => after == before,
            Poll::Exit => after == before,
            Poll::Run { .. } => exists|advance: Advance| #[trigger] Self::advances(before, keys, after, advance),
        }
    }

    /// Whether `after` is what `rounds` rounds of the worker's loop make of
    /// `before` where each of them finds the command `command`.
    pub open spec fn rounds(before: Frontend, command: Command, keys: Seq<bool>, rounds: nat, after: Frontend) -> bool
        decreases rounds,
    {
        if rounds == 0 {
            after == before
        } else {
            exists|middle: Frontend|
                #![trigger Self::round(middle, command, keys, after)]
                Self::rounds(before, command, keys, (rounds - 1) as nat, middle) && Self::round(
                    middle,
                    command,
                    keys,
                    after,
                )
        }
    }

    /// A pause leaves the machine as it was: as long as the worker finds the
    /// command `Suspend`, which `suspend` has set and `resume` takes back, it
    /// runs no instruction, however many rounds it makes.
    pub proof fn lemma_pause_keeps_machine(before: Frontend, keys: Seq<bool>, rounds: nat, after: Frontend)
        requires
            Self::rounds(before, Command::Suspend, keys, rounds, after),
        ensures
            after == before,
        decreases rounds,
    {
        if rounds > 0 {
            let middle = choose|middle: Frontend|
                #![trigger Self::round(middle, Command::Suspend, keys, after)]
                Self::rounds(before, Command::Suspend, keys, (rounds - 1) as nat, middle) && Self::round(
                    middle,
                    Command::Suspend,
                    keys,
                    after,
                );
            Self::lemma_pause_keeps_machine(before, keys, (rounds - 1) as nat, middle);
        }
    }

    /// Whether `backend_after`, `display_after` and `outcome` are what a
    /// tick of `n` instructions makes of `backend` and `display`: that of
    /// [`Backend::tick`], for some random bytes.
    pub open spec fn ran(
        backend: Backend,
        display: DisplayBuffer,
        keys: Seq<bool>,
        n: u16,
        backend_after: Backend,
        display_after: DisplayBuffer,
        outcome: Result<(usize, Instruction), BackendError>,
    ) -> bool {
        if backend.loaded {
            exists|randoms: Seq<u8>|
                randoms.len() == n && #[trigger] Backend::ticks(
                    backend@,
                    &display,
                    keys,
                    randoms,
                    n as nat,
                    backend_after@,
                    &display_after,
                    outcome,
                )
        } else {
            &&& outcome == Err::<(usize, Instruction), BackendError>(
                BackendError { instruction: None, kind: crate::backend::BackendErrorKind::ProgramNotLoaded },
            )
            &&& backend_after@ == backend@
            &&& display_after == display
        }
    }
}

} // verus!
