//! The messages exchanged with the emulator core: commands sent to it and
//! the replies and notifications that come back.
use vstd::prelude::*;

verus! {

/// A side effect that the core performs when a trigger fires.
pub enum TriggerAction {
    /// Halt the CPU.
    Pause,
    /// Report the CPU state.
    PrintState,
    /// Print a message.
    Message(String),
}

/// A breakpoint-like condition held by the core: an address, the message to
/// report when it is reached, whether it fires once only, and its actions.
pub struct Trigger {
    pub address: u32,
    pub msg: String,
    pub once: bool,
    pub actions: Vec<TriggerAction>,
}

/// A command for the emulator core.
pub enum DebugCmd {
    Continue,
    Pause,
    Step,
    StepOver,
    AddTrigger(Trigger),
    DeleteTrigger(u32),
    ListTriggers,
    GetRegisters,
    GetState,
    GetMemory { start: u32, len: u32 },
    /// Disassemble `start .. end`; `adl` overrides the CPU's addressing mode.
    Disassemble { adl: Option<bool>, start: u32, end: u32 },
    /// Disassemble from the program counter; `adl` overrides the CPU's addressing mode.
    DisassemblePc { adl: Option<bool> },
}

/// What a console line asks for: a command for the core, or a local action.
pub enum Cmd {
    Core(DebugCmd),
    UiHelp,
    UiExit,
}

/// The CPU registers, as the console shows them.
pub struct RegisterSet {
    pub pc: u32,
    pub af: u16,
    pub bc: u32,
    pub de: u32,
    pub hl: u32,
    /// The 16-bit stack pointer (SPS).
    pub sps: u16,
    /// The 24-bit stack pointer (SPL).
    pub spl: u32,
    pub ix: u32,
    pub iy: u32,
    pub mbase: u8,
    pub adl: bool,
    pub madl: bool,
}

/// One disassembled instruction: its address, its text and its bytes.
pub struct Instruction {
    pub loc: u32,
    pub text: String,
    pub bytes: Vec<u8>,
}

/// A reply of the core, or a notification that it sends unasked.
pub enum DebugResp {
    Memory { start: u32, data: Vec<u8> },
    Registers(RegisterSet),
    State { registers: RegisterSet, stack: Vec<u8>, pc_instruction: String },
    Disassembly { adl: bool, disasm: Vec<Instruction> },
    Triggers(Vec<Trigger>),
    Message(String),
    IsPaused(bool),
    TriggerRan(String),
    Pong,
}

} // verus!
