//! The console session: what to do with each line read, each reply and each
//! notification of the core, and whether to prompt or to wait.
use vstd::prelude::*;
use vstd::string::*;

use crate::command::{Cmd, DebugCmd, DebugResp};
use crate::format::{push_digits, push_hex, push_str, render_response, response_text, text_of};
use crate::help::{help_lines, help_text};
use crate::number::{dec_digits, hex_digits};
use crate::parser::{dis_mode, lemma_parse_unique, parse_cmd, parses_as, same_cmd, split_words, words_of};

verus! {

/// Whether the session starts with the CPU paused.
pub const PAUSE_AT_START: bool = true;

/// How long the console sleeps between two drains while the CPU runs, in milliseconds.
pub const IDLE_MS: u64 = 50;

/// What reading a console line gave.
pub enum Input {
    Line(String),
    /// The read was cut short by an interrupt.
    Interrupted,
    /// The console's input has ended.
    Eof,
    /// The read failed, for the reason given.
    Failed(String),
}

/// What the console does next.
pub enum Next {
    /// Drain pending notifications, then read a line.
    Prompt,
    /// Drain pending notifications, then sleep for `IDLE_MS`.
    Idle,
    /// Send the command and wait for exactly one reply.
    Send(DebugCmd),
    /// End the process.
    Exit,
}

/// Text to print, then what to do.
pub struct Action {
    pub output: String,
    pub next: Next,
}

/// The console's state: whether it believes the CPU paused, the command
/// line that an empty line repeats, and the line to remember once the reply
/// awaited comes.
pub struct Session {
    pub paused: bool,
    pub last_cmd: Option<String>,
    pub awaiting_reply: bool,
    pub record: Option<String>,
}

/// The model of a session, with texts as character sequences.
pub struct SessionView {
    pub paused: bool,
    pub last_cmd: Option<Seq<char>>,
    pub awaiting_reply: bool,
    pub record: Option<Seq<char>>,
}

/// The characters of an optional text.
pub open spec fn opt_text(o: Option<String>) -> Option<Seq<char>> {
    match o {
        Some(s) => Some(s@),
        None => None,
    }
}

impl View for Session {
    type V = SessionView;

    open spec fn view(&self) -> SessionView {
        SessionView {
            paused: self.paused,
            last_cmd: opt_text(self.last_cmd),
            awaiting_reply: self.awaiting_reply,
            record: opt_text(self.record),
        }
    }
}

/// Prompt while the CPU is paused; only drain and sleep while it runs.
pub open spec fn wait_for(paused: bool) -> Next {
    if paused {
        Next::Prompt
    } else {
        Next::Idle
    }
}

/// The pause state after seeing a reply: a pause report sets it, a trigger
/// that ran pauses, anything else leaves it.
pub open spec fn paused_after(resp: DebugResp, paused: bool) -> bool {
    match resp {
        DebugResp::IsPaused(p) => p,
        DebugResp::TriggerRan(_) => true,
        _ => paused,
    }
}

/// The text that a line read runs: the line itself, or the remembered one
/// for an empty line.
pub open spec fn run_text(s: SessionView, line: Seq<char>) -> Option<Seq<char>> {
    if line.len() > 0 {
        Some(line)
    } else {
        s.last_cmd
    }
}

/// The remembered command line once a line to `record` has run: kept while
/// the CPU stays paused, forgotten once it runs.
pub open spec fn recorded(
    last: Option<Seq<char>>,
    record: Option<Seq<char>>,
    paused: bool,
) -> Option<Seq<char>> {
    match record {
        Some(l) => if paused {
            Some(l)
        } else {
            None
        },
        None => last,
    }
}

/// The hint printed while a line is read as `cmd`: the usage of a command
/// whose address is missing, or what a breakpoint or a disassembly will cover.
pub open spec fn note_text(words: Seq<Seq<char>>, cmd: Option<Cmd>) -> Seq<char> {
    if words.len() == 0 {
        Seq::empty()
    } else {
        let k = words[0];
        if k == "delete"@ && cmd is None {
            "delete expects an address argument\n"@
        } else if k == "break"@ {
            match cmd {
                Some(Cmd::Core(DebugCmd::AddTrigger(t))) => "Setting breakpoint at &"@ + hex_digits(
                    t.address as nat,
                    0,
                ) + "\n"@,
                _ => "break <address>\n"@,
            }
        } else if (k == "mem"@ || k == "memory"@) && cmd is None {
            "mem <start> [len]\n"@
        } else if dis_mode(k) is Some {
            match cmd {
                Some(Cmd::Core(DebugCmd::Disassemble { adl, start, end })) => "disassemble "@
                    + dec_digits(start as nat) + " "@ + dec_digits(end as nat) + "\n"@,
                _ => Seq::empty(),
            }
        } else {
            Seq::empty()
        }
    }
}

/// Running `text`, read as `cmd`: the new state `t` and the action `r`.
/// `record` is the line to remember, if any.
pub open spec fn command_step(
    s: SessionView,
    text: Seq<char>,
    cmd: Option<Cmd>,
    record: Option<Seq<char>>,
    t: SessionView,
    r: Action,
) -> bool {
    let note = note_text(words_of(text), cmd);
    match cmd {
        None => {
            &&& t == SessionView {
                last_cmd: recorded(s.last_cmd, record, s.paused),
                awaiting_reply: false,
                record: None,
                ..s
            }
            &&& r.output@ == note + "Unknown or invalid command: "@ + text + "\n"@
            &&& r.next == wait_for(s.paused)
        },
        Some(Cmd::UiHelp) => {
            &&& t == SessionView {
                last_cmd: recorded(s.last_cmd, record, s.paused),
                awaiting_reply: false,
                record: None,
                ..s
            }
            &&& r.output@ == help_lines()
            &&& r.next == wait_for(s.paused)
        },
        Some(Cmd::UiExit) => {
            &&& t == s
            &&& r.output@ == note
            &&& r.next == Next::Exit
        },
        Some(Cmd::Core(c)) => {
            &&& t == SessionView {
                paused: s.paused && !(c is Continue),
                awaiting_reply: true,
                record,
                ..s
            }
            &&& r.output@ == note
            &&& r.next == Next::Send(c)
        },
    }
}

/// The hint printed while `words` are read as `cmd`.
fn usage_note(words: &Vec<String>, cmd: &Option<Cmd>) -> (r: String)
    ensures
        r@ == note_text(words.deep_view(), *cmd),
{
    let mut out: Vec<char> = Vec::new();
    if words.len() > 0 {
        let k = words[0].as_str();
        let ghost kw = words.deep_view()[0];
        assert(k@ == kw);
        if crate::parser::same_text(k, "delete") && cmd.is_none() {
            push_str(&mut out, "delete expects an address argument\n");
        } else if crate::parser::same_text(k, "break") {
            match cmd {
                Some(Cmd::Core(DebugCmd::AddTrigger(t))) => {
                    push_str(&mut out, "Setting breakpoint at &");
                    push_hex(&mut out, t.address, 0);
                    push_str(&mut out, "\n");
                },
                _ => {
                    push_str(&mut out, "break <address>\n");
                },
            }
        } else if (crate::parser::same_text(k, "mem") || crate::parser::same_text(k, "memory"))
            && cmd.is_none() {
            push_str(&mut out, "mem <start> [len]\n");
        } else if crate::parser::same_text(k, "dis16") || crate::parser::same_text(k, "dis24")
            || crate::parser::same_text(k, "dis") || crate::parser::same_text(k, "disassemble") {
            match cmd {
                Some(Cmd::Core(DebugCmd::Disassemble { adl, start, end })) => {
                    push_str(&mut out, "disassemble ");
                    push_digits(&mut out, *start, 10, 0);
                    push_str(&mut out, " ");
                    push_digits(&mut out, *end, 10, 0);
                    push_str(&mut out, "\n");
                },
                _ => {},
            }
        }
    }
    assert(out@ =~= note_text(words.deep_view(), *cmd));
    text_of(&out)
}

/// The line that a line read leaves to remember: itself, unless it is empty.
pub open spec fn record_of(line: Seq<char>) -> Option<Seq<char>> {
    if line.len() > 0 {
        Some(line)
    } else {
        None
    }
}

/// The state and action after running `text`, whatever the grammar makes of it.
pub open spec fn text_step(
    s: SessionView,
    text: Seq<char>,
    record: Option<Seq<char>>,
    t: SessionView,
    r: Action,
) -> bool {
    exists|cmd: Option<Cmd>|
        #![trigger parses_as(words_of(text), cmd)]
        {
            &&& parses_as(words_of(text), cmd)
            &&& command_step(s, text, cmd, record, t, r)
        }
}

/// The state and action after a line read.
pub open spec fn line_step(s: SessionView, line: Seq<char>, t: SessionView, r: Action) -> bool {
    match run_text(s, line) {
        None => {
            &&& t == s
            &&& r.output@.len() == 0
            &&& r.next == wait_for(s.paused)
        },
        Some(text) => text_step(s, text, record_of(line), t, r),
    }
}

/// The state and action after a read that gave no line.
pub open spec fn input_step(s: SessionView, input: Input, t: SessionView, r: Action) -> bool {
    match input {
        Input::Line(line) => line_step(s, line@, t, r),
        Input::Interrupted => {
            &&& t == s
            &&& r.output@.len() == 0
            &&& r.next == Next::Idle
        },
        Input::Eof => {
            &&& t == SessionView { paused: false, awaiting_reply: true, record: None, ..s }
            &&& r.output@.len() == 0
            &&& r.next == Next::Send(DebugCmd::Continue)
        },
        Input::Failed(msg) => {
            &&& t == s
            &&& r.output@ == "Error: "@ + msg@ + "\n"@
            &&& r.next == Next::Idle
        },
    }
}

/// The state after the reply awaited.
pub open spec fn reply_state(s: SessionView, resp: DebugResp) -> SessionView {
    let p = paused_after(resp, s.paused);
    SessionView {
        paused: p,
        last_cmd: recorded(s.last_cmd, s.record, p),
        awaiting_reply: false,
        record: None,
    }
}

impl Session {
    /// A session in the given pause state, with nothing remembered.
    pub fn new(paused: bool) -> (r: Session)
        ensures
            r@ == (SessionView { paused, last_cmd: None, awaiting_reply: false, record: None }),
    {
        Session { paused, last_cmd: None, awaiting_reply: false, record: None }
    }

    /// What the console does while no reply is awaited: prompt for a line
    /// while the CPU is paused, only drain and sleep while it runs.
    pub fn next_wait(&self) -> (r: Next)
        ensures
            r == wait_for(self.paused),
    {
        if self.paused {
            Next::Prompt
        } else {
            Next::Idle
        }
    }

    /// Renders a reply or notification of the core, and takes the pause
    /// state that it reports.
    pub fn handle_debug_resp(&mut self, resp: &DebugResp) -> (r: String)
        ensures
            r@ == response_text(*resp),
            final(self)@ == (SessionView { paused: paused_after(*resp, old(self).paused), ..old(self)@ }),
    {
        match resp {
            DebugResp::IsPaused(p) => {
                self.paused = *p;
            },
            DebugResp::TriggerRan(_) => {
                self.paused = true;
            },
            _ => {},
        }
        render_response(resp)
    }

    /// Runs a command line, read as `cmd`; `record` is the line to remember.
    pub fn run_command(&mut self, text: &str, cmd: Option<Cmd>, record: Option<String>) -> (r:
        Action)
        ensures
            command_step(old(self)@, text@, cmd, opt_text(record), final(self)@, r),
    {
        let words = split_words(text);
        let note = usage_note(&words, &cmd);
        match cmd {
            None => {
                let mut out: Vec<char> = Vec::new();
                push_str(&mut out, note.as_str());
                push_str(&mut out, "Unknown or invalid command: ");
                push_str(&mut out, text);
                push_str(&mut out, "\n");
                self.remember(record);
                let next = self.next_wait();
                Action { output: text_of(&out), next }
            },
            Some(Cmd::UiHelp) => {
                self.remember(record);
                let next = self.next_wait();
                Action { output: help_text(), next }
            },
            Some(Cmd::UiExit) => Action { output: note, next: Next::Exit },
            Some(Cmd::Core(c)) => {
                if let DebugCmd::Continue = c {
                    self.paused = false;
                }
                self.awaiting_reply = true;
                self.record = record;
                Action { output: note, next: Next::Send(c) }
            },
        }
    }

    fn remember(&mut self, record: Option<String>)
        ensures
            final(self)@ == (SessionView {
                last_cmd: recorded(old(self)@.last_cmd, opt_text(record), old(self).paused),
                awaiting_reply: false,
                record: None,
                ..old(self)@
            }),
    {
        match record {
            Some(l) => {
                if self.paused {
                    self.last_cmd = Some(l);
                } else {
                    self.last_cmd = None;
                }
            },
            None => {},
        }
        self.awaiting_reply = false;
        self.record = None;
    }

    /// Handles what reading a console line gave: runs the line, or repeats
    /// the remembered one for an empty line; leaves prompting after an
    /// interrupt or a failed read; resumes the CPU at the end of input.
    pub fn on_input(&mut self, input: Input) -> (r: Action)
        ensures
            input_step(old(self)@, input, final(self)@, r),
    {
        match input {
            Input::Line(line) => {
                if line.as_str().unicode_len() > 0 {
                    let cmd = parse_cmd(&split_words(line.as_str()));
                    let ghost read = cmd;
                    let text = line.clone();
                    let r = self.run_command(text.as_str(), cmd, Some(line));
                    assert(parses_as(words_of(text@), read));
                    assert(text@ == line@);
                    assert(run_text(old(self)@, line@) == Some(text@));
                    assert(text_step(old(self)@, text@, Some(line@), self@, r));
                    r
                } else {
                    let last = match &self.last_cmd {
                        Some(t) => Some(t.clone()),
                        None => None,
                    };
                    match last {
                        Some(text) => {
                            let cmd = parse_cmd(&split_words(text.as_str()));
                            let ghost read = cmd;
                            let r = self.run_command(text.as_str(), cmd, None);
                            assert(parses_as(words_of(text@), read));
                            assert(run_text(old(self)@, line@) == Some(text@));
                            assert(command_step(old(self)@, text@, read, None, self@, r));
                            assert(record_of(line@) == None::<Seq<char>>);
                            assert(text_step(old(self)@, text@, None, self@, r));
                            r
                        },
                        None => {
                            let next = self.next_wait();
                            proof {
                                reveal_strlit("");
                            }
                            Action { output: String::new(), next }
                        },
                    }
                }
            },
            Input::Interrupted => Action { output: String::new(), next: Next::Idle },
            Input::Eof => {
                self.paused = false;
                self.awaiting_reply = true;
                self.record = None;
                Action { output: String::new(), next: Next::Send(DebugCmd::Continue) }
            },
            Input::Failed(msg) => {
                let mut out: Vec<char> = Vec::new();
                push_str(&mut out, "Error: ");
                push_str(&mut out, msg.as_str());
                push_str(&mut out, "\n");
                Action { output: text_of(&out), next: Next::Idle }
            },
        }
    }

    /// Handles the reply to the command sent: renders it, takes the pause
    /// state it reports, and remembers the line that was run while the CPU
    /// stays paused.
    pub fn on_reply(&mut self, resp: &DebugResp) -> (r: Action)
        ensures
            final(self)@ == reply_state(old(self)@, *resp),
            r.output@ == response_text(*resp),
            r.next == wait_for(final(self).paused),
    {
        let output = self.handle_debug_resp(resp);
        let record = self.record.take();
        self.remember(record);
        let next = self.next_wait();
        Action { output, next }
    }
}

/// What an interrupt does: the pause state to take at once, and the commands
/// to send, in order: pause the CPU, then report its state.
pub fn interrupt() -> (r: (bool, Vec<DebugCmd>))
    ensures
        r.0,
        r.1@ == seq![DebugCmd::Pause, DebugCmd::GetState],
{
    let mut cmds: Vec<DebugCmd> = Vec::new();
    cmds.push(DebugCmd::Pause);
    cmds.push(DebugCmd::GetState);
    (true, cmds)
}

/// Repeating a command: once a non-empty line has run a core command while
/// the CPU was paused, and the reply leaves it paused, an empty line runs that
/// same line again, read by the same grammar, and remembers nothing new.
pub proof fn lemma_empty_line_repeats(
    s: SessionView,
    line: Seq<char>,
    c: DebugCmd,
    s1: SessionView,
    r1: Action,
    resp: DebugResp,
    s3: SessionView,
    r3: Action,
)
    requires
        s.paused,
        line.len() > 0,
        parses_as(words_of(line), Some(Cmd::Core(c))),
        line_step(s, line, s1, r1),
        r1.next == Next::Send(c),
        paused_after(resp, s1.paused),
    ensures
        reply_state(s1, resp).last_cmd == Some(line),
        line_step(reply_state(s1, resp), Seq::empty(), s3, r3) <==> text_step(
            reply_state(s1, resp),
            line,
            None,
            s3,
            r3,
        ),
        line_step(reply_state(s1, resp), Seq::empty(), s3, r3) ==> match r3.next {
            Next::Send(c3) => same_cmd(Some(Cmd::Core(c)), Some(Cmd::Core(c3))),
            _ => false,
        },
{
    let cmd = choose|cmd: Option<Cmd>|
        #![trigger parses_as(words_of(line), cmd)]
        {
            &&& parses_as(words_of(line), cmd)
            &&& command_step(s, line, cmd, Some(line), s1, r1)
        };
    assert(cmd is Some);
    assert(s1.record == Some(line));
    let s2 = reply_state(s1, resp);
    if line_step(s2, Seq::empty(), s3, r3) {
        let cmd3 = choose|cmd3: Option<Cmd>|
            #![trigger parses_as(words_of(line), cmd3)]
            {
                &&& parses_as(words_of(line), cmd3)
                &&& command_step(s2, line, cmd3, None, s3, r3)
            };
        lemma_parse_unique(words_of(line), Some(Cmd::Core(c)), cmd3);
    }
}

/// Continuing forgets the command line: once a line has run `continue`, the
/// console at once stops prompting, and unless the reply reports a pause, an
/// empty line afterwards does nothing.
pub proof fn lemma_continue_forgets(
    s: SessionView,
    line: Seq<char>,
    s1: SessionView,
    r1: Action,
    resp: DebugResp,
    s3: SessionView,
    r3: Action,
)
    requires
        line.len() > 0,
        line_step(s, line, s1, r1),
        r1.next == Next::Send(DebugCmd::Continue),
        !paused_after(resp, false),
    ensures
        !s1.paused,
        wait_for(s1.paused) == Next::Idle,
        !reply_state(s1, resp).paused,
        reply_state(s1, resp).last_cmd is None,
        line_step(reply_state(s1, resp), Seq::empty(), s3, r3) <==> (s3 == reply_state(s1, resp)
            && r3.output@.len() == 0 && r3.next == Next::Idle),
{
    let cmd = choose|cmd: Option<Cmd>|
        #![trigger parses_as(words_of(line), cmd)]
        {
            &&& parses_as(words_of(line), cmd)
            &&& command_step(s, line, cmd, Some(line), s1, r1)
        };
    assert(cmd is Some);
}

/// Prompting follows the pause state: the console reads lines only while the
/// CPU is paused, stops once `continue` is sent, and prompts again once the
/// core reports a pause or a trigger that ran.
pub proof fn lemma_prompt_follows_pause(paused: bool, resp: DebugResp)
    ensures
        wait_for(paused) == Next::Prompt <==> paused,
        wait_for(paused) == Next::Idle <==> !paused,
        (resp == DebugResp::IsPaused(true) || resp is TriggerRan) ==> wait_for(
            paused_after(resp, paused),
        ) == Next::Prompt,
{
}

} // verus!
