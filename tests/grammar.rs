use agon_debugger::command::{Cmd, DebugCmd};
use agon_debugger::number::parse_number;
use agon_debugger::parser::{parse_cmd, parse_line, split_words};

fn core_cmd(line: &str) -> DebugCmd {
    match parse_line(line) {
        Some(Cmd::Core(c)) => c,
        _ => panic!("no core command for {:?}", line),
    }
}

#[test]
fn numbers_in_each_notation() {
    assert_eq!(parse_number("1000"), Some(1000));
    assert_eq!(parse_number("&1000"), Some(0x1000));
    assert_eq!(parse_number("$ff"), Some(0xff));
    assert_eq!(parse_number("$FF"), Some(0xff));
    assert_eq!(parse_number("10h"), Some(0x10));
    assert_eq!(parse_number("c000H"), Some(0xc000));
    assert_eq!(parse_number("+7"), Some(7));
    assert_eq!(parse_number("4294967295"), Some(u32::MAX));
    assert_eq!(parse_number("FFFFFFFFh"), Some(u32::MAX));
}

#[test]
fn numbers_rejected() {
    assert_eq!(parse_number(""), None);
    assert_eq!(parse_number("&"), None);
    assert_eq!(parse_number("h"), None);
    assert_eq!(parse_number("+"), None);
    assert_eq!(parse_number("-5"), None);
    assert_eq!(parse_number("12ab"), None);
    assert_eq!(parse_number("&12g"), None);
    assert_eq!(parse_number("4294967296"), None);
    assert_eq!(parse_number("&100000000"), None);
    assert_eq!(parse_number("1 2"), None);
}

#[test]
fn hex_literal_round_trip() {
    for a in [0u32, 1, 0xf, 0x10, 0x1000, 0xabcdef, 0xffffff, 0x40000] {
        assert_eq!(parse_number(&format!("&{:x}", a)), Some(a));
        assert_eq!(parse_number(&format!("{}", a)), Some(a));
    }
}

#[test]
fn words_split_on_any_blank() {
    assert_eq!(split_words("  mem   &10 \t 4  "), vec!["mem", "&10", "4"]);
    assert_eq!(split_words(""), Vec::<String>::new());
    assert_eq!(split_words("   "), Vec::<String>::new());
    assert_eq!(split_words("a\u{3000}b"), vec!["a", "b"]);
}

#[test]
fn each_keyword_gives_its_command() {
    assert!(matches!(parse_line("help"), Some(Cmd::UiHelp)));
    assert!(matches!(parse_line("exit"), Some(Cmd::UiExit)));
    assert!(matches!(core_cmd("info breakpoints"), DebugCmd::ListTriggers));
    assert!(matches!(core_cmd("delete &40000"), DebugCmd::DeleteTrigger(0x40000)));
    assert!(matches!(core_cmd("n"), DebugCmd::StepOver));
    assert!(matches!(core_cmd("next"), DebugCmd::StepOver));
    assert!(matches!(core_cmd("s"), DebugCmd::Step));
    assert!(matches!(core_cmd("step"), DebugCmd::Step));
    assert!(matches!(core_cmd("registers"), DebugCmd::GetRegisters));
    assert!(matches!(core_cmd("."), DebugCmd::GetState));
    assert!(matches!(core_cmd("state"), DebugCmd::GetState));
    assert!(matches!(core_cmd("c"), DebugCmd::Continue));
    assert!(matches!(core_cmd("continue"), DebugCmd::Continue));
}

#[test]
fn break_sets_a_plain_breakpoint() {
    match core_cmd("break $1234") {
        DebugCmd::AddTrigger(t) => {
            assert_eq!(t.address, 0x1234);
            assert_eq!(t.msg, "Cpu paused at breakpoint");
            assert!(!t.once);
            assert!(t.actions.is_empty());
        }
        _ => panic!("no trigger"),
    }
}

#[test]
fn memory_length_defaults_to_sixteen() {
    assert!(matches!(core_cmd("mem 1000"), DebugCmd::GetMemory { start: 1000, len: 16 }));
    assert!(matches!(core_cmd("mem &1000"), DebugCmd::GetMemory { start: 0x1000, len: 16 }));
    assert!(matches!(core_cmd("memory &1000 32"), DebugCmd::GetMemory { start: 0x1000, len: 32 }));
    assert!(matches!(core_cmd("mem &1000 zz"), DebugCmd::GetMemory { start: 0x1000, len: 16 }));
}

#[test]
fn disassembly_end_defaults_past_start() {
    assert!(matches!(
        core_cmd("disassemble &1000"),
        DebugCmd::Disassemble { adl: None, start: 0x1000, end: 0x1020 }
    ));
    assert!(matches!(
        core_cmd("dis &1000 &1100"),
        DebugCmd::Disassemble { adl: None, start: 0x1000, end: 0x1100 }
    ));
    assert!(matches!(
        core_cmd("dis16 100"),
        DebugCmd::Disassemble { adl: Some(false), start: 100, end: 132 }
    ));
    assert!(matches!(
        core_cmd("dis24 &ffffffff"),
        DebugCmd::Disassemble { adl: Some(true), start: 0xffffffff, end: 0x1f }
    ));
}

#[test]
fn disassembly_without_start_runs_from_pc() {
    assert!(matches!(core_cmd("dis"), DebugCmd::DisassemblePc { adl: None }));
    assert!(matches!(core_cmd("dis16"), DebugCmd::DisassemblePc { adl: Some(false) }));
    assert!(matches!(core_cmd("dis24 xyz"), DebugCmd::DisassemblePc { adl: Some(true) }));
}

#[test]
fn malformed_arguments_are_rejected() {
    assert!(parse_line("delete").is_none());
    assert!(parse_line("delete xyz").is_none());
    assert!(parse_line("break").is_none());
    assert!(parse_line("mem").is_none());
    assert!(parse_line("info").is_none());
    assert!(parse_line("info triggers").is_none());
    assert!(parse_line("").is_none());
    assert!(parse_line("   ").is_none());
}

#[test]
fn unknown_first_word_is_rejected_whatever_follows() {
    for line in ["foo", "foo bar", "Help", "HELP me", "stepover 1 2 3", "quit", "memo &10", "c0"] {
        assert!(parse_line(line).is_none(), "{}", line);
    }
}

#[test]
fn words_given_directly() {
    let words = vec!["mem".to_string(), "$10".to_string(), "2".to_string()];
    assert!(matches!(parse_cmd(&words), Some(Cmd::Core(DebugCmd::GetMemory { start: 16, len: 2 }))));
    assert!(parse_cmd(&Vec::new()).is_none());
}
