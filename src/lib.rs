//! Command console for an eZ80 CPU emulator: the command grammar, the
//! protocol types exchanged with the emulator core, the rendering of its
//! replies and the pause/run session state machine.
use vstd::prelude::*;

pub mod command;
pub mod format;
pub mod help;
pub mod number;
pub mod parser;
pub mod session;

verus! {

} // verus!
