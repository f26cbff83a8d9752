use agon_debugger::command::{DebugCmd, DebugResp, Instruction, RegisterSet, Trigger};
use agon_debugger::format::render_response;
use agon_debugger::help::help_text;
use agon_debugger::session::{interrupt, Input, Next, Session, PAUSE_AT_START};

fn regs(adl: bool) -> RegisterSet {
    RegisterSet {
        pc: 0x40000,
        af: 0x1234,
        bc: 0x56,
        de: 0xabcdef,
        hl: 0x10,
        sps: 0xfffe,
        spl: 0x0bffe9,
        ix: 0,
        iy: 0x7,
        mbase: 0xb,
        adl,
        madl: true,
    }
}

const REGS: &str = "PC:040000 AF:1234 BC:000056 DE:abcdef HL:000010 SPS:fffe SPL:0bffe9 IX:000000 IY:000007 MB 0b ADL 1 MADL 1\n";

#[test]
fn memory_rows_and_gutter() {
    let data: Vec<u8> = (0x3eu8..0x52).chain([0x00, 0x7f, 0x80, 0x41]).collect();
    let out = render_response(&DebugResp::Memory { start: 0x1000, data });
    let expected = "001000: 3e 3f 40 41 42 43 44 45 46 47 48 49 4a 4b 4c 4d | >?@ABCDEFGHIJKLM\n\
                    001010: 4e 4f 50 51 00 7f 80 41 | NOPQ   A\n";
    assert_eq!(out, expected);
    assert_eq!(render_response(&DebugResp::Memory { start: 5, data: vec![] }), "");
}

#[test]
fn registers_in_fixed_width_hex() {
    assert_eq!(render_response(&DebugResp::Registers(regs(true))), REGS);
}

#[test]
fn state_shows_stack_of_current_mode() {
    let out = render_response(&DebugResp::State {
        registers: regs(true),
        stack: vec![1, 0xab],
        pc_instruction: "ld a,b".to_string(),
    });
    let expected = format!("ld a,b               {}                     SPL top $0bffe9: 01 ab\n", REGS);
    assert_eq!(out, expected);
    let out = render_response(&DebugResp::State {
        registers: regs(false),
        stack: vec![],
        pc_instruction: "nop".to_string(),
    });
    assert!(out.ends_with("                     SPS top $fffe:\n"));
}

#[test]
fn disassembly_lines() {
    let out = render_response(&DebugResp::Disassembly {
        adl: true,
        disasm: vec![
            Instruction { loc: 0x40000, text: "ld hl,$123456".to_string(), bytes: vec![0x21, 0x56, 0x34, 0x12] },
            Instruction { loc: 0x40004, text: "ret".to_string(), bytes: vec![0xc9] },
        ],
    });
    let expected = "\t.assume adl=1\n\
                    040000: ld hl,$123456        | 21 56 34 12\n\
                    040004: ret                  | c9\n";
    assert_eq!(out, expected);
}

#[test]
fn trigger_list_and_messages() {
    let t = |a| Trigger { address: a, msg: String::new(), once: false, actions: vec![] };
    let out = render_response(&DebugResp::Triggers(vec![t(0x40000), t(0x5)]));
    assert_eq!(out, "Triggers:\n\t&40000\n\t&5\n");
    assert_eq!(render_response(&DebugResp::Message("hello".to_string())), "hello\n");
    assert_eq!(render_response(&DebugResp::TriggerRan("hit".to_string())), "hit\n");
    assert_eq!(render_response(&DebugResp::IsPaused(true)), "");
    assert_eq!(render_response(&DebugResp::Pong), "");
}

#[test]
fn help_lists_commands() {
    let h = help_text();
    assert!(h.starts_with("While CPU is running:\n"));
    assert!(h.contains("info breakpoints             List breakpoints\n"));
    assert!(h.ends_with("The previous command can be repeated by pressing return.\n"));
}

fn line(s: &str) -> Input {
    Input::Line(s.to_string())
}

#[test]
fn empty_line_repeats_last_command() {
    let mut s = Session::new(PAUSE_AT_START);
    assert!(matches!(s.next_wait(), Next::Prompt));
    let a = s.on_input(line("mem &10 4"));
    assert!(matches!(a.next, Next::Send(DebugCmd::GetMemory { start: 16, len: 4 })));
    let a = s.on_reply(&DebugResp::Memory { start: 16, data: vec![0x41] });
    assert_eq!(a.output, "000010: 41 | A\n");
    assert!(matches!(a.next, Next::Prompt));
    let a = s.on_input(line(""));
    assert!(matches!(a.next, Next::Send(DebugCmd::GetMemory { start: 16, len: 4 })));
    s.on_reply(&DebugResp::Pong);
    assert_eq!(s.last_cmd.as_deref(), Some("mem &10 4"));
}

#[test]
fn empty_line_after_continue_does_nothing() {
    let mut s = Session::new(true);
    s.on_input(line("s"));
    s.on_reply(&DebugResp::Pong);
    let a = s.on_input(line("continue"));
    assert!(matches!(a.next, Next::Send(DebugCmd::Continue)));
    assert!(!s.paused);
    let a = s.on_reply(&DebugResp::IsPaused(false));
    assert!(matches!(a.next, Next::Idle));
    assert!(s.last_cmd.is_none());
    let a = s.on_input(line(""));
    assert_eq!(a.output, "");
    assert!(matches!(a.next, Next::Idle));
}

#[test]
fn empty_line_with_nothing_remembered() {
    let mut s = Session::new(true);
    let a = s.on_input(line(""));
    assert_eq!(a.output, "");
    assert!(matches!(a.next, Next::Prompt));
}

#[test]
fn running_drains_until_a_pause_is_reported() {
    let mut s = Session::new(true);
    s.on_input(line("c"));
    assert!(matches!(s.next_wait(), Next::Idle));
    s.on_reply(&DebugResp::Pong);
    assert!(matches!(s.next_wait(), Next::Idle));
    assert_eq!(s.handle_debug_resp(&DebugResp::Message("tick".to_string())), "tick\n");
    assert!(matches!(s.next_wait(), Next::Idle));
    assert_eq!(s.handle_debug_resp(&DebugResp::TriggerRan("Cpu paused at breakpoint".to_string())), "Cpu paused at breakpoint\n");
    assert!(matches!(s.next_wait(), Next::Prompt));
    s.handle_debug_resp(&DebugResp::IsPaused(false));
    assert!(matches!(s.next_wait(), Next::Idle));
    s.handle_debug_resp(&DebugResp::IsPaused(true));
    assert!(matches!(s.next_wait(), Next::Prompt));
}

#[test]
fn interrupt_pauses_then_asks_for_state() {
    let (paused, cmds) = interrupt();
    assert!(paused);
    assert_eq!(cmds.len(), 2);
    assert!(matches!(cmds[0], DebugCmd::Pause));
    assert!(matches!(cmds[1], DebugCmd::GetState));
}

#[test]
fn rejected_lines_print_usage_and_stay_paused() {
    let mut s = Session::new(true);
    let a = s.on_input(line("delete"));
    assert_eq!(a.output, "delete expects an address argument\nUnknown or invalid command: delete\n");
    assert!(matches!(a.next, Next::Prompt));
    let a = s.on_input(line("frobnicate 1 2"));
    assert_eq!(a.output, "Unknown or invalid command: frobnicate 1 2\n");
    let a = s.on_input(line("mem"));
    assert_eq!(a.output, "mem <start> [len]\nUnknown or invalid command: mem\n");
    let a = s.on_input(line("break"));
    assert_eq!(a.output, "break <address>\nUnknown or invalid command: break\n");
}

#[test]
fn notes_for_breakpoint_and_disassembly() {
    let mut s = Session::new(true);
    let a = s.on_input(line("break &40a0"));
    assert_eq!(a.output, "Setting breakpoint at &40a0\n");
    s.on_reply(&DebugResp::Pong);
    let a = s.on_input(line("dis &1000"));
    assert_eq!(a.output, "disassemble 4096 4128\n");
}

#[test]
fn help_exit_and_read_outcomes() {
    let mut s = Session::new(true);
    let a = s.on_input(line("help"));
    assert_eq!(a.output, help_text());
    assert!(matches!(a.next, Next::Prompt));
    assert!(matches!(s.on_input(line("exit")).next, Next::Exit));
    assert!(matches!(s.on_input(Input::Interrupted).next, Next::Idle));
    let a = s.on_input(Input::Failed("bad tty".to_string()));
    assert_eq!(a.output, "Error: bad tty\n");
    assert!(matches!(a.next, Next::Idle));
    let a = s.on_input(Input::Eof);
    assert!(matches!(a.next, Next::Send(DebugCmd::Continue)));
    assert!(!s.paused);
}
