//! The console's help text.
use vstd::prelude::*;

use crate::format::text_of;
use crate::format::push_str;

verus! {

/// The help text: the commands, one per line.
pub open spec fn help_lines() -> Seq<char> {
    "While CPU is running:\n"@ + "<CTRL-C>                     Pause Agon CPU and enter debugger\n"@ + "\n"@ + "While CPU is paused:\n"@ + "break <address>              Set a breakpoint at the hex address\n"@ + "c[ontinue]                   Resume (un-pause) Agon CPU\n"@ + "delete <address>             Delete a breakpoint\n"@ + "dis[assemble] [start] [end]  Disassemble in current ADL mode\n"@ + "dis16 [start] [end]          Disassemble in ADL=0 (Z80) mode\n"@ + "dis24 [start] [end]          Disassemble in ADL=1 (24-bit) mode\n"@ + "exit                         Quit from Agon Light Emulator\n"@ + "info breakpoints             List breakpoints\n"@ + "[mem]ory <start> [len]       Dump memory\n"@ + "n[ext]                       Step over function calls\n"@ + "state                        Show CPU state\n"@ + ".                            Show CPU state\n"@ + "s[tep]                       Execute one instuction\n"@ + "\n"@ + "The previous command can be repeated by pressing return.\n"@
}

/// The help text that lists the console's commands.
pub fn help_text() -> (r: String)
    ensures
        r@ == help_lines(),
{
    let mut out: Vec<char> = Vec::new();
    push_str(&mut out, "While CPU is running:\n");
    push_str(&mut out, "<CTRL-C>                     Pause Agon CPU and enter debugger\n");
    push_str(&mut out, "\n");
    push_str(&mut out, "While CPU is paused:\n");
    push_str(&mut out, "break <address>              Set a breakpoint at the hex address\n");
    push_str(&mut out, "c[ontinue]                   Resume (un-pause) Agon CPU\n");
    push_str(&mut out, "delete <address>             Delete a breakpoint\n");
    push_str(&mut out, "dis[assemble] [start] [end]  Disassemble in current ADL mode\n");
    push_str(&mut out, "dis16 [start] [end]          Disassemble in ADL=0 (Z80) mode\n");
    push_str(&mut out, "dis24 [start] [end]          Disassemble in ADL=1 (24-bit) mode\n");
    push_str(&mut out, "exit                         Quit from Agon Light Emulator\n");
    push_str(&mut out, "info breakpoints             List breakpoints\n");
    push_str(&mut out, "[mem]ory <start> [len]       Dump memory\n");
    push_str(&mut out, "n[ext]                       Step over function calls\n");
    push_str(&mut out, "state                        Show CPU state\n");
    push_str(&mut out, ".                            Show CPU state\n");
    push_str(&mut out, "s[tep]                       Execute one instuction\n");
    push_str(&mut out, "\n");
    push_str(&mut out, "The previous command can be repeated by pressing return.\n");
    assert(out@ =~= help_lines());
    text_of(&out)
}

} // verus!
