//! The command grammar: a console line is split into words, and the words
//! are read as a command.
use vstd::prelude::*;
use vstd::string::*;

use crate::command::{Cmd, DebugCmd, Trigger};
use crate::number::{number_value, parse_number};

verus! {

/// The characters that separate words: those of Unicode's `White_Space` property.
pub open spec fn is_blank(c: char) -> bool {
    let u = c as u32;
    ||| 0x09 <= u <= 0x0d
    ||| u == 0x20
    ||| u == 0x85
    ||| u == 0xa0
    ||| u == 0x1680
    ||| 0x2000 <= u <= 0x200a
    ||| u == 0x2028
    ||| u == 0x2029
    ||| u == 0x202f
    ||| u == 0x205f
    ||| u == 0x3000
}

/// Scanning `s` from the left: the words completed so far and the word under way.
pub open spec fn scan(s: Seq<char>) -> (Seq<Seq<char>>, Seq<char>)
    decreases s.len(),
{
    if s.len() == 0 {
        (Seq::empty(), Seq::empty())
    } else {
        let prev = scan(s.drop_last());
        let c = s.last();
        if is_blank(c) {
            if prev.1.len() > 0 {
                (prev.0.push(prev.1), Seq::empty())
            } else {
                prev
            }
        } else {
            (prev.0, prev.1.push(c))
        }
    }
}

/// The maximal runs of non-blank characters of `s`, in order.
pub open spec fn words_of(s: Seq<char>) -> Seq<Seq<char>> {
    let st = scan(s);
    if st.1.len() > 0 {
        st.0.push(st.1)
    } else {
        st.0
    }
}

fn is_blank_char(c: char) -> (r: bool)
    ensures
        r == is_blank(c),
{
    let u = c as u32;
    (0x09 <= u && u <= 0x0d) || u == 0x20 || u == 0x85 || u == 0xa0 || u == 0x1680 || (0x2000 <= u
        && u <= 0x200a) || u == 0x2028 || u == 0x2029 || u == 0x202f || u == 0x205f || u == 0x3000
}

/// Splits a line into its words: the maximal runs of non-blank characters.
pub fn split_words(text: &str) -> (r: Vec<String>)
    ensures
        r.deep_view() == words_of(text@),
{
    let n = text.unicode_len();
    let mut ws: Vec<String> = Vec::new();
    let mut start: usize = 0;
    let mut i: usize = 0;
    while i < n
        invariant
            n == text@.len(),
            start <= i <= n,
            scan(text@.subrange(0, i as int)).0 == ws.deep_view(),
            scan(text@.subrange(0, i as int)).1 == text@.subrange(start as int, i as int),
        decreases n - i,
    {
        let ghost pre = text@.subrange(0, i as int);
        let ghost cur = text@.subrange(0, i + 1);
        assert(cur.drop_last() =~= pre);
        let c = text.get_char(i);
        if is_blank_char(c) {
            if start < i {
                let w = text.substring_char(start, i).to_string();
                let ghost old_ws = ws.deep_view();
                ws.push(w);
                assert(ws.deep_view() =~= old_ws.push(text@.subrange(start as int, i as int)));
            }
            start = i + 1;
            assert(text@.subrange(start as int, i + 1) =~= Seq::<char>::empty());
        } else {
            assert(text@.subrange(start as int, i + 1) =~= text@.subrange(
                start as int,
                i as int,
            ).push(c));
        }
        i = i + 1;
    }
    assert(text@.subrange(0, n as int) =~= text@);
    if start < n {
        let w = text.substring_char(start, n).to_string();
        let ghost old_ws = ws.deep_view();
        ws.push(w);
        assert(ws.deep_view() =~= old_ws.push(text@.subrange(start as int, n as int)));
    }
    ws
}

/// Whether two texts hold the same characters.
pub(crate) fn same_text(a: &str, b: &str) -> (r: bool)
    ensures
        r == (a@ == b@),
{
    let n = a.unicode_len();
    if n != b.unicode_len() {
        return false;
    }
    let mut i: usize = 0;
    while i < n
        invariant
            n == a@.len() == b@.len(),
            i <= n,
            forall|k: int| 0 <= k < i ==> a@[k] == b@[k],
        decreases n - i,
    {
        if a.get_char(i) != b.get_char(i) {
            return false;
        }
        i = i + 1;
    }
    assert(a@ =~= b@);
    true
}

/// The word at position `i`, or an empty word past the end.
pub open spec fn arg(words: Seq<Seq<char>>, i: int) -> Seq<char> {
    if 0 <= i < words.len() {
        words[i]
    } else {
        Seq::empty()
    }
}

/// The message of a breakpoint set from the console.
pub open spec fn breakpoint_msg() -> Seq<char> {
    "Cpu paused at breakpoint"@
}

/// A trigger that pauses at `address` every time, with no further action.
pub open spec fn is_breakpoint(t: Trigger, address: u32) -> bool {
    &&& t.address == address
    &&& t.msg@ == breakpoint_msg()
    &&& !t.once
    &&& t.actions@.len() == 0
}

/// The addressing-mode override of a disassembly keyword, if `k` is one.
pub open spec fn dis_mode(k: Seq<char>) -> Option<Option<bool>> {
    if k == "dis16"@ {
        Some(Some(false))
    } else if k == "dis24"@ {
        Some(Some(true))
    } else if k == "dis"@ || k == "disassemble"@ {
        Some(None)
    } else {
        None
    }
}

/// The first words that the grammar knows.
pub open spec fn is_keyword(k: Seq<char>) -> bool {
    ||| k == "help"@
    ||| k == "info"@
    ||| k == "delete"@
    ||| k == "break"@
    ||| k == "exit"@
    ||| k == "n"@
    ||| k == "next"@
    ||| k == "s"@
    ||| k == "step"@
    ||| k == "registers"@
    ||| k == "mem"@
    ||| k == "memory"@
    ||| k == "."@
    ||| k == "state"@
    ||| dis_mode(k) is Some
    ||| k == "c"@
    ||| k == "continue"@
}

/// The number in a word, or `default` where the word holds none.
pub open spec fn number_or(w: Seq<char>, default: u32) -> u32 {
    match number_value(w) {
        Some(v) => v,
        None => default,
    }
}

/// The end of a disassembly that names only its start.
pub open spec fn default_end(start: u32) -> u32 {
    ((start + 0x20) % 0x1_0000_0000) as u32
}

/// `r` is what the grammar makes of `words`.
pub open spec fn parses_as(words: Seq<Seq<char>>, r: Option<Cmd>) -> bool {
    if words.len() == 0 {
        r is None
    } else {
        let k = words[0];
        let a1 = arg(words, 1);
        let a2 = arg(words, 2);
        if k == "help"@ {
            r == Some(Cmd::UiHelp)
        } else if k == "info"@ {
            r == if a1 == "breakpoints"@ {
                Some(Cmd::Core(DebugCmd::ListTriggers))
            } else {
                None
            }
        } else if k == "delete"@ {
            r == match number_value(a1) {
                Some(a) => Some(Cmd::Core(DebugCmd::DeleteTrigger(a))),
                None => None,
            }
        } else if k == "break"@ {
            match number_value(a1) {
                Some(a) => match r {
                    Some(Cmd::Core(DebugCmd::AddTrigger(t))) => is_breakpoint(t, a),
                    _ => false,
                },
                None => r is None,
            }
        } else if k == "exit"@ {
            r == Some(Cmd::UiExit)
        } else if k == "n"@ || k == "next"@ {
            r == Some(Cmd::Core(DebugCmd::StepOver))
        } else if k == "s"@ || k == "step"@ {
            r == Some(Cmd::Core(DebugCmd::Step))
        } else if k == "registers"@ {
            r == Some(Cmd::Core(DebugCmd::GetRegisters))
        } else if k == "mem"@ || k == "memory"@ {
            r == match number_value(a1) {
                Some(start) => Some(Cmd::Core(DebugCmd::GetMemory { start, len: number_or(a2, 16) })),
                None => None,
            }
        } else if k == "."@ || k == "state"@ {
            r == Some(Cmd::Core(DebugCmd::GetState))
        } else if dis_mode(k) is Some {
            let adl = dis_mode(k)->0;
            r == match number_value(a1) {
                Some(start) => Some(
                    Cmd::Core(
                        DebugCmd::Disassemble { adl, start, end: number_or(a2, default_end(start)) },
                    ),
                ),
                None => Some(Cmd::Core(DebugCmd::DisassemblePc { adl })),
            }
        } else if k == "c"@ || k == "continue"@ {
            r == Some(Cmd::Core(DebugCmd::Continue))
        } else {
            r is None
        }
    }
}

/// The word at position `i`, or an empty word past the end.
fn word_at(words: &Vec<String>, i: usize) -> (r: &str)
    ensures
        r@ == arg(words.deep_view(), i as int),
{
    if i < words.len() {
        words[i].as_str()
    } else {
        proof {
            reveal_strlit("");
        }
        ""
    }
}

/// Reads a line's words as a command. `None` where the first word is no
/// keyword, where `info` is not followed by `breakpoints`, and where
/// `delete`, `break`, `mem` or `memory` lack a number as their first argument.
/// A missing or unreadable length of `mem` is 16; a missing or unreadable end
/// of a disassembly is 0x20 past its start; a disassembly with no readable
/// start runs from the program counter.
pub fn parse_cmd(words: &Vec<String>) -> (r: Option<Cmd>)
    ensures
        parses_as(words.deep_view(), r),
{
    if words.len() == 0 {
        return None;
    }
    let k = words[0].as_str();
    if same_text(k, "help") {
        Some(Cmd::UiHelp)
    } else if same_text(k, "info") {
        if same_text(word_at(words, 1), "breakpoints") {
            Some(Cmd::Core(DebugCmd::ListTriggers))
        } else {
            None
        }
    } else if same_text(k, "delete") {
        match parse_number(word_at(words, 1)) {
            Some(a) => Some(Cmd::Core(DebugCmd::DeleteTrigger(a))),
            None => None,
        }
    } else if same_text(k, "break") {
        match parse_number(word_at(words, 1)) {
            Some(a) => {
                let msg = "Cpu paused at breakpoint".to_string();
                Some(
                    Cmd::Core(
                        DebugCmd::AddTrigger(
                            Trigger { address: a, msg, once: false, actions: Vec::new() },
                        ),
                    ),
                )
            },
            None => None,
        }
    } else if same_text(k, "exit") {
        Some(Cmd::UiExit)
    } else if same_text(k, "n") || same_text(k, "next") {
        Some(Cmd::Core(DebugCmd::StepOver))
    } else if same_text(k, "s") || same_text(k, "step") {
        Some(Cmd::Core(DebugCmd::Step))
    } else if same_text(k, "registers") {
        Some(Cmd::Core(DebugCmd::GetRegisters))
    } else if same_text(k, "mem") || same_text(k, "memory") {
        match parse_number(word_at(words, 1)) {
            Some(start) => {
                let len = match parse_number(word_at(words, 2)) {
                    Some(l) => l,
                    None => 16,
                };
                Some(Cmd::Core(DebugCmd::GetMemory { start, len }))
            },
            None => None,
        }
    } else if same_text(k, ".") || same_text(k, "state") {
        Some(Cmd::Core(DebugCmd::GetState))
    } else if same_text(k, "dis16") || same_text(k, "dis24") || same_text(k, "dis") || same_text(
        k,
        "disassemble",
    ) {
        let adl = if same_text(k, "dis16") {
            Some(false)
        } else if same_text(k, "dis24") {
            Some(true)
        } else {
            None
        };
        match parse_number(word_at(words, 1)) {
            Some(start) => {
                let end = match parse_number(word_at(words, 2)) {
                    Some(e) => e,
                    None => start.wrapping_add(0x20),
                };
                Some(Cmd::Core(DebugCmd::Disassemble { adl, start, end }))
            },
            None => Some(Cmd::Core(DebugCmd::DisassemblePc { adl })),
        }
    } else if same_text(k, "c") || same_text(k, "continue") {
        Some(Cmd::Core(DebugCmd::Continue))
    } else {
        None
    }
}

/// Reads a console line as a command: its words, read by `parse_cmd`.
pub fn parse_line(text: &str) -> (r: Option<Cmd>)
    ensures
        parses_as(words_of(text@), r),
{
    let words = split_words(text);
    parse_cmd(&words)
}

/// A line whose first word is no keyword is rejected, whatever follows it.
pub proof fn lemma_unknown_keyword_rejected(words: Seq<Seq<char>>, r: Option<Cmd>)
    requires
        words.len() > 0,
        !is_keyword(words[0]),
        parses_as(words, r),
    ensures
        r is None,
{
}

/// The keywords' lengths and the characters that tell them apart.
proof fn lemma_keyword_letters()
    ensures
        "help"@.len() == 4,
        "help"@[0] == 'h',
        "info"@.len() == 4,
        "info"@[0] == 'i',
        "delete"@.len() == 6,
        "delete"@[0] == 'd',
        "break"@.len() == 5,
        "break"@[0] == 'b',
        "exit"@.len() == 4,
        "exit"@[0] == 'e',
        "n"@.len() == 1,
        "n"@[0] == 'n',
        "next"@.len() == 4,
        "next"@[0] == 'n',
        "s"@.len() == 1,
        "s"@[0] == 's',
        "step"@.len() == 4,
        "step"@[0] == 's',
        "registers"@.len() == 9,
        "registers"@[0] == 'r',
        "mem"@.len() == 3,
        "mem"@[0] == 'm',
        "memory"@.len() == 6,
        "memory"@[0] == 'm',
        "."@.len() == 1,
        "."@[0] == '.',
        "state"@.len() == 5,
        "state"@[0] == 's',
        "dis16"@.len() == 5,
        "dis16"@[0] == 'd',
        "dis24"@.len() == 5,
        "dis24"@[0] == 'd',
        "dis"@.len() == 3,
        "dis"@[0] == 'd',
        "disassemble"@.len() == 11,
        "disassemble"@[0] == 'd',
        "c"@.len() == 1,
        "c"@[0] == 'c',
        "continue"@.len() == 8,
        "continue"@[0] == 'c',
        "dis16"@[3] == '1',
        "dis24"@[3] == '2',
{
    reveal_strlit("help");
    reveal_strlit("info");
    reveal_strlit("delete");
    reveal_strlit("break");
    reveal_strlit("exit");
    reveal_strlit("n");
    reveal_strlit("next");
    reveal_strlit("s");
    reveal_strlit("step");
    reveal_strlit("registers");
    reveal_strlit("mem");
    reveal_strlit("memory");
    reveal_strlit(".");
    reveal_strlit("state");
    reveal_strlit("dis16");
    reveal_strlit("dis24");
    reveal_strlit("dis");
    reveal_strlit("disassemble");
    reveal_strlit("c");
    reveal_strlit("continue");
}

/// Every keyword with a well-formed argument list is accepted: `info` with
/// `breakpoints`, `delete`, `break`, `mem` and `memory` with a number first,
/// every other keyword with any arguments. `mem` without a readable length
/// asks for 16 bytes, and a disassembly with a start but no readable end
/// covers 0x20 bytes.
pub proof fn lemma_keywords_accepted(words: Seq<Seq<char>>, r: Option<Cmd>)
    requires
        words.len() > 0,
        is_keyword(words[0]),
        words[0] == "info"@ ==> arg(words, 1) == "breakpoints"@,
        (words[0] == "delete"@ || words[0] == "break"@ || words[0] == "mem"@ || words[0]
            == "memory"@) ==> number_value(arg(words, 1)) is Some,
        parses_as(words, r),
    ensures
        r is Some,
        (words[0] == "mem"@ || words[0] == "memory"@) && number_value(arg(words, 2)) is None
            ==> r == Some(
            Cmd::Core(DebugCmd::GetMemory { start: number_value(arg(words, 1))->0, len: 16 }),
        ),
        dis_mode(words[0]) is Some && number_value(arg(words, 1)) is Some && number_value(
            arg(words, 2),
        ) is None ==> r == Some(
            Cmd::Core(
                DebugCmd::Disassemble {
                    adl: dis_mode(words[0])->0,
                    start: number_value(arg(words, 1))->0,
                    end: default_end(number_value(arg(words, 1))->0),
                },
            ),
        ),
{
    lemma_keyword_letters();
}

/// Two readings that agree: the same command, where a breakpoint counts by
/// its address, message, repetition and actions.
pub open spec fn same_cmd(a: Option<Cmd>, b: Option<Cmd>) -> bool {
    match (a, b) {
        (Some(Cmd::Core(DebugCmd::AddTrigger(x))), Some(Cmd::Core(DebugCmd::AddTrigger(y)))) => {
            &&& x.address == y.address
            &&& x.msg@ == y.msg@
            &&& x.once == y.once
            &&& x.actions@ == y.actions@
        },
        _ => a == b,
    }
}

/// The grammar reads a line one way only.
pub proof fn lemma_parse_unique(words: Seq<Seq<char>>, a: Option<Cmd>, b: Option<Cmd>)
    requires
        parses_as(words, a),
        parses_as(words, b),
    ensures
        same_cmd(a, b),
{
    if let (Some(Cmd::Core(DebugCmd::AddTrigger(x))), Some(Cmd::Core(DebugCmd::AddTrigger(y)))) = (
        a,
        b,
    ) {
        assert(x.actions@ =~= y.actions@);
    }
}

} // verus!
