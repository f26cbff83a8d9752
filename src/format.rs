//! Rendering of the core's replies, and the help text, as console text.
use vstd::prelude::*;
use vstd::string::*;

use crate::command::{DebugResp, Instruction, RegisterSet, Trigger};
use crate::number::{digit_char, hex_digits, radix_digits};

verus! {

/// `n` spaces.
pub open spec fn spaces(n: nat) -> Seq<char> {
    Seq::new(n, |i: int| ' ')
}

/// `s` followed by spaces up to `width` characters.
pub open spec fn pad(s: Seq<char>, width: nat) -> Seq<char> {
    if s.len() >= width {
        s
    } else {
        s + spaces((width - s.len()) as nat)
    }
}

/// The character shown for a byte beside a memory dump: itself where it is
/// printable ASCII, a space otherwise.
pub open spec fn gutter_char(b: u8) -> char {
    if 0x20 <= b <= 0x7e {
        b as char
    } else {
        ' '
    }
}

/// Each byte in two hexadecimal digits, each followed by a space.
pub open spec fn bytes_then_space(bs: Seq<u8>) -> Seq<char>
    decreases bs.len(),
{
    if bs.len() == 0 {
        Seq::empty()
    } else {
        hex_digits(bs[0] as nat, 2) + " "@ + bytes_then_space(bs.drop_first())
    }
}

/// Each byte in two hexadecimal digits, each preceded by a space.
pub open spec fn space_then_bytes(bs: Seq<u8>) -> Seq<char>
    decreases bs.len(),
{
    if bs.len() == 0 {
        Seq::empty()
    } else {
        " "@ + hex_digits(bs[0] as nat, 2) + space_then_bytes(bs.drop_first())
    }
}

/// The gutter characters of the bytes.
pub open spec fn gutter(bs: Seq<u8>) -> Seq<char> {
    Seq::new(bs.len(), |i: int| gutter_char(bs[i]))
}

/// The address that follows a memory row, on 32 bits.
pub open spec fn next_row(pos: u32) -> u32 {
    ((pos + 16) % 0x1_0000_0000) as u32
}

/// One row of a memory dump: address, bytes in hexadecimal, and their gutter.
pub open spec fn row_text(pos: u32, row: Seq<u8>) -> Seq<char> {
    hex_digits(pos as nat, 6) + ": "@ + bytes_then_space(row) + "| "@ + gutter(row) + "\n"@
}

/// A memory dump from `pos`: one row per sixteen bytes.
pub open spec fn memory_text(pos: u32, data: Seq<u8>) -> Seq<char>
    decreases data.len(),
{
    if data.len() == 0 {
        Seq::empty()
    } else if data.len() <= 16 {
        row_text(pos, data)
    } else {
        row_text(pos, data.take(16)) + memory_text(next_row(pos), data.skip(16))
    }
}

/// `0` or `1` for a flag.
pub open spec fn flag_digit(b: bool) -> nat {
    if b {
        1
    } else {
        0
    }
}

/// The register line.
pub open spec fn registers_text(r: RegisterSet) -> Seq<char> {
    "PC:"@ + hex_digits(r.pc as nat, 6) + " AF:"@ + hex_digits(r.af as nat, 4) + " BC:"@
        + hex_digits(r.bc as nat, 6) + " DE:"@ + hex_digits(r.de as nat, 6) + " HL:"@
        + hex_digits(r.hl as nat, 6) + " SPS:"@ + hex_digits(r.sps as nat, 4) + " SPL:"@
        + hex_digits(r.spl as nat, 6) + " IX:"@ + hex_digits(r.ix as nat, 6) + " IY:"@
        + hex_digits(r.iy as nat, 6) + " MB "@ + hex_digits(r.mbase as nat, 2) + " ADL "@
        + hex_digits(flag_digit(r.adl), 1) + " MADL "@ + hex_digits(flag_digit(r.madl), 1) + "\n"@
}

/// The stack line of a state report: the stack pointer of the current mode
/// and the bytes on top of the stack.
pub open spec fn stack_text(r: RegisterSet, stack: Seq<u8>) -> Seq<char> {
    spaces(20) + (if r.adl {
        " SPL top $"@ + hex_digits(r.spl as nat, 6)
    } else {
        " SPS top $"@ + hex_digits(r.sps as nat, 4)
    }) + ":"@ + space_then_bytes(stack) + "\n"@
}

/// One line of a disassembly.
pub open spec fn instruction_text(i: Instruction) -> Seq<char> {
    hex_digits(i.loc as nat, 6) + ": "@ + pad(i.text@, 20) + " |"@ + space_then_bytes(i.bytes@)
        + "\n"@
}

/// The lines of a disassembly's instructions.
pub open spec fn instructions_text(is: Seq<Instruction>) -> Seq<char>
    decreases is.len(),
{
    if is.len() == 0 {
        Seq::empty()
    } else {
        instruction_text(is[0]) + instructions_text(is.drop_first())
    }
}

/// The address lines of a trigger list.
pub open spec fn triggers_text(ts: Seq<Trigger>) -> Seq<char>
    decreases ts.len(),
{
    if ts.len() == 0 {
        Seq::empty()
    } else {
        "\t&"@ + hex_digits(ts[0].address as nat, 0) + "\n"@ + triggers_text(ts.drop_first())
    }
}

/// The console text of a reply.
pub open spec fn response_text(resp: DebugResp) -> Seq<char> {
    match resp {
        DebugResp::Memory { start, data } => memory_text(start, data@),
        DebugResp::Message(s) => s@ + "\n"@,
        DebugResp::IsPaused(_) => Seq::empty(),
        DebugResp::TriggerRan(msg) => msg@ + "\n"@,
        DebugResp::Triggers(ts) => "Triggers:\n"@ + triggers_text(ts@),
        DebugResp::Pong => Seq::empty(),
        DebugResp::Disassembly { adl, disasm } => "\t.assume adl="@ + hex_digits(
            flag_digit(adl),
            1,
        ) + "\n"@ + instructions_text(disasm@),
        DebugResp::State { registers, stack, pc_instruction } => pad(pc_instruction@, 20) + " "@
            + registers_text(registers) + stack_text(registers, stack@),
        DebugResp::Registers(registers) => registers_text(registers),
    }
}

/// Relies on `String`'s `FromIterator<char>`: the string of the characters, in order.
#[verifier::external_body]
pub(crate) fn text_of(chars: &Vec<char>) -> (r: String)
    ensures
        r@ == chars@,
{
    chars.iter().collect()
}

pub(crate) fn push_str(out: &mut Vec<char>, s: &str)
    ensures
        final(out)@ == old(out)@ + s@,
{
    let n = s.unicode_len();
    let mut i: usize = 0;
    while i < n
        invariant
            n == s@.len(),
            i <= n,
            out@ == old(out)@ + s@.subrange(0, i as int),
        decreases n - i,
    {
        let c = s.get_char(i);
        out.push(c);
        assert(s@.subrange(0, i + 1) =~= s@.subrange(0, i as int).push(c));
        i = i + 1;
    }
    assert(s@.subrange(0, n as int) =~= s@);
}

fn digit_char_of(d: u32) -> (c: char)
    requires
        d < 16,
    ensures
        c == digit_char(d as nat),
{
    if d < 10 {
        ((0x30 + d) as u8) as char
    } else {
        ((0x61 + d - 10) as u8) as char
    }
}

pub(crate) fn push_digits(out: &mut Vec<char>, n: u32, radix: u32, width: u32)
    requires
        radix == 10 || radix == 16,
    ensures
        final(out)@ == old(out)@ + radix_digits(n as nat, radix as nat, width as nat),
    decreases n + width,
{
    if n < radix && width <= 1 {
        let c = digit_char_of(n);
        out.push(c);
        assert(radix_digits(n as nat, radix as nat, width as nat) =~= seq![c]);
    } else {
        let w = if width > 0 {
            width - 1
        } else {
            0
        };
        assert(n / radix <= n);
        push_digits(out, n / radix, radix, w);
        let c = digit_char_of(n % radix);
        out.push(c);
        assert(radix_digits(n as nat, radix as nat, width as nat) =~= radix_digits(
            (n / radix) as nat,
            radix as nat,
            w as nat,
        ).push(c));
    }
}

pub(crate) fn push_hex(out: &mut Vec<char>, n: u32, width: u32)
    ensures
        final(out)@ == old(out)@ + hex_digits(n as nat, width as nat),
{
    push_digits(out, n, 16, width);
}

fn push_spaces(out: &mut Vec<char>, n: usize)
    ensures
        final(out)@ == old(out)@ + spaces(n as nat),
{
    let mut i: usize = 0;
    while i < n
        invariant
            i <= n,
            out@ == old(out)@ + spaces(i as nat),
        decreases n - i,
    {
        out.push(' ');
        assert(spaces((i + 1) as nat) =~= spaces(i as nat).push(' '));
        i = i + 1;
    }
}

fn push_padded(out: &mut Vec<char>, s: &str, width: usize)
    ensures
        final(out)@ == old(out)@ + pad(s@, width as nat),
{
    push_str(out, s);
    let n = s.unicode_len();
    if n < width {
        push_spaces(out, width - n);
    }
}

/// Pushes `bytes_then_space` of `data[from .. to]`.
fn push_bytes_then_space(out: &mut Vec<char>, data: &Vec<u8>, from: usize, to: usize)
    requires
        from <= to <= data@.len(),
    ensures
        final(out)@ == old(out)@ + bytes_then_space(data@.subrange(from as int, to as int)),
{
    let ghost sub = data@.subrange(from as int, to as int);
    let mut i: usize = from;
    while i < to
        invariant
            from <= i <= to <= data@.len(),
            sub == data@.subrange(from as int, to as int),
            old(out)@ + bytes_then_space(sub) == out@ + bytes_then_space(
                data@.subrange(i as int, to as int),
            ),
        decreases to - i,
    {
        let ghost rest = data@.subrange(i as int, to as int);
        assert(rest.drop_first() =~= data@.subrange(i + 1, to as int));
        let ghost before = out@;
        push_hex(out, data[i] as u32, 2);
        out.push(' ');
        assert(out@ =~= before + hex_digits(rest[0] as nat, 2) + " "@) by {
            reveal_strlit(" ");
        }
        assert(before + bytes_then_space(rest) =~= out@ + bytes_then_space(
            data@.subrange(i + 1, to as int),
        ));
        i = i + 1;
    }
    assert(bytes_then_space(data@.subrange(i as int, to as int)) =~= Seq::<char>::empty());
    assert(out@ =~= old(out)@ + bytes_then_space(sub));
}

/// Pushes `space_then_bytes` of `data`.
fn push_space_then_bytes(out: &mut Vec<char>, data: &Vec<u8>)
    ensures
        final(out)@ == old(out)@ + space_then_bytes(data@),
{
    let n = data.len();
    let mut i: usize = 0;
    assert(data@.subrange(0, n as int) =~= data@);
    while i < n
        invariant
            i <= n == data@.len(),
            old(out)@ + space_then_bytes(data@) == out@ + space_then_bytes(
                data@.subrange(i as int, n as int),
            ),
        decreases n - i,
    {
        let ghost rest = data@.subrange(i as int, n as int);
        assert(rest.drop_first() =~= data@.subrange(i + 1, n as int));
        let ghost before = out@;
        out.push(' ');
        push_hex(out, data[i] as u32, 2);
        assert(out@ =~= before + " "@ + hex_digits(rest[0] as nat, 2)) by {
            reveal_strlit(" ");
        }
        assert(before + space_then_bytes(rest) =~= out@ + space_then_bytes(
            data@.subrange(i + 1, n as int),
        ));
        i = i + 1;
    }
    assert(space_then_bytes(data@.subrange(i as int, n as int)) =~= Seq::<char>::empty());
    assert(out@ =~= old(out)@ + space_then_bytes(data@));
}

/// Pushes the gutter of `data[from .. to]`.
fn push_gutter(out: &mut Vec<char>, data: &Vec<u8>, from: usize, to: usize)
    requires
        from <= to <= data@.len(),
    ensures
        final(out)@ == old(out)@ + gutter(data@.subrange(from as int, to as int)),
{
    let ghost sub = data@.subrange(from as int, to as int);
    let mut i: usize = from;
    while i < to
        invariant
            from <= i <= to <= data@.len(),
            sub == data@.subrange(from as int, to as int),
            out@ =~= old(out)@ + Seq::new((i - from) as nat, |k: int| gutter_char(sub[k])),
        decreases to - i,
    {
        let b = data[i];
        let c = if 0x20 <= b && b <= 0x7e {
            b as char
        } else {
            ' '
        };
        out.push(c);
        assert(sub[i - from] == b);
        i = i + 1;
    }
}

fn push_row(out: &mut Vec<char>, pos: u32, data: &Vec<u8>, from: usize, to: usize)
    requires
        from <= to <= data@.len(),
    ensures
        final(out)@ == old(out)@ + row_text(pos, data@.subrange(from as int, to as int)),
{
    let ghost sub = data@.subrange(from as int, to as int);
    push_hex(out, pos, 6);
    push_str(out, ": ");
    push_bytes_then_space(out, data, from, to);
    push_str(out, "| ");
    push_gutter(out, data, from, to);
    push_str(out, "\n");
    assert(out@ =~= old(out)@ + row_text(pos, sub));
}

fn push_memory(out: &mut Vec<char>, start: u32, data: &Vec<u8>)
    ensures
        final(out)@ == old(out)@ + memory_text(start, data@),
{
    let n = data.len();
    let mut pos: u32 = start;
    let mut i: usize = 0;
    assert(data@.subrange(0, n as int) =~= data@);
    while i < n
        invariant
            i <= n == data@.len(),
            old(out)@ + memory_text(start, data@) == out@ + memory_text(
                pos,
                data@.subrange(i as int, n as int),
            ),
        decreases n - i,
    {
        let ghost rest = data@.subrange(i as int, n as int);
        let ghost before = out@;
        let end: usize = if n - i <= 16 {
            n
        } else {
            i + 16
        };
        push_row(out, pos, data, i, end);
        if n - i > 16 {
            assert(rest.take(16) =~= data@.subrange(i as int, end as int));
            assert(rest.skip(16) =~= data@.subrange(end as int, n as int));
        } else {
            assert(rest =~= data@.subrange(i as int, end as int));
            assert(data@.subrange(end as int, n as int) =~= Seq::<u8>::empty());
        }
        let ghost after = data@.subrange(end as int, n as int);
        assert(before + memory_text(pos, rest) =~= out@ + memory_text(
            next_row(pos),
            after,
        ));
        pos = pos.wrapping_add(16);
        i = end;
    }
    assert(memory_text(pos, data@.subrange(i as int, n as int)) =~= Seq::<char>::empty());
    assert(out@ =~= old(out)@ + memory_text(start, data@));
}

fn push_registers(out: &mut Vec<char>, r: &RegisterSet)
    ensures
        final(out)@ == old(out)@ + registers_text(*r),
{
    push_str(out, "PC:");
    push_hex(out, r.pc, 6);
    push_str(out, " AF:");
    push_hex(out, r.af as u32, 4);
    push_str(out, " BC:");
    push_hex(out, r.bc, 6);
    push_str(out, " DE:");
    push_hex(out, r.de, 6);
    push_str(out, " HL:");
    push_hex(out, r.hl, 6);
    push_str(out, " SPS:");
    push_hex(out, r.sps as u32, 4);
    push_str(out, " SPL:");
    push_hex(out, r.spl, 6);
    push_str(out, " IX:");
    push_hex(out, r.ix, 6);
    push_str(out, " IY:");
    push_hex(out, r.iy, 6);
    push_str(out, " MB ");
    push_hex(out, r.mbase as u32, 2);
    push_str(out, " ADL ");
    push_hex(out, if r.adl {
        1
    } else {
        0
    }, 1);
    push_str(out, " MADL ");
    push_hex(out, if r.madl {
        1
    } else {
        0
    }, 1);
    push_str(out, "\n");
    assert(out@ =~= old(out)@ + registers_text(*r));
}

fn push_stack(out: &mut Vec<char>, r: &RegisterSet, stack: &Vec<u8>)
    ensures
        final(out)@ == old(out)@ + stack_text(*r, stack@),
{
    push_spaces(out, 20);
    if r.adl {
        push_str(out, " SPL top $");
        push_hex(out, r.spl, 6);
    } else {
        push_str(out, " SPS top $");
        push_hex(out, r.sps as u32, 4);
    }
    push_str(out, ":");
    push_space_then_bytes(out, stack);
    push_str(out, "\n");
    assert(out@ =~= old(out)@ + stack_text(*r, stack@));
}

fn push_instructions(out: &mut Vec<char>, is: &Vec<Instruction>)
    ensures
        final(out)@ == old(out)@ + instructions_text(is@),
{
    let n = is.len();
    let mut i: usize = 0;
    assert(is@.subrange(0, n as int) =~= is@);
    while i < n
        invariant
            i <= n == is@.len(),
            old(out)@ + instructions_text(is@) == out@ + instructions_text(
                is@.subrange(i as int, n as int),
            ),
        decreases n - i,
    {
        let ghost rest = is@.subrange(i as int, n as int);
        assert(rest.drop_first() =~= is@.subrange(i + 1, n as int));
        let ghost before = out@;
        let inst = &is[i];
        push_hex(out, inst.loc, 6);
        push_str(out, ": ");
        push_padded(out, inst.text.as_str(), 20);
        push_str(out, " |");
        push_space_then_bytes(out, &inst.bytes);
        push_str(out, "\n");
        assert(out@ =~= before + instruction_text(rest[0]));
        assert(before + instructions_text(rest) =~= out@ + instructions_text(
            is@.subrange(i + 1, n as int),
        ));
        i = i + 1;
    }
    assert(instructions_text(is@.subrange(i as int, n as int)) =~= Seq::<char>::empty());
    assert(out@ =~= old(out)@ + instructions_text(is@));
}

fn push_triggers(out: &mut Vec<char>, ts: &Vec<Trigger>)
    ensures
        final(out)@ == old(out)@ + triggers_text(ts@),
{
    let n = ts.len();
    let mut i: usize = 0;
    assert(ts@.subrange(0, n as int) =~= ts@);
    while i < n
        invariant
            i <= n == ts@.len(),
            old(out)@ + triggers_text(ts@) == out@ + triggers_text(
                ts@.subrange(i as int, n as int),
            ),
        decreases n - i,
    {
        let ghost rest = ts@.subrange(i as int, n as int);
        assert(rest.drop_first() =~= ts@.subrange(i + 1, n as int));
        let ghost before = out@;
        push_str(out, "\t&");
        push_hex(out, ts[i].address, 0);
        push_str(out, "\n");
        assert(before + triggers_text(rest) =~= out@ + triggers_text(
            ts@.subrange(i + 1, n as int),
        ));
        i = i + 1;
    }
    assert(triggers_text(ts@.subrange(i as int, n as int)) =~= Seq::<char>::empty());
    assert(out@ =~= old(out)@ + triggers_text(ts@));
}

/// Renders a reply of the core as console text: a memory dump in rows of
/// sixteen bytes, registers in hexadecimal of fixed width, a disassembly
/// after its addressing-mode line, a trigger list by address, a message on
/// a line of its own, nothing for a pause report or a pong.
pub fn render_response(resp: &DebugResp) -> (r: String)
    ensures
        r@ == response_text(*resp),
{
    let mut out: Vec<char> = Vec::new();
    match resp {
        DebugResp::Memory { start, data } => {
            push_memory(&mut out, *start, data);
        },
        DebugResp::Message(s) => {
            push_str(&mut out, s.as_str());
            push_str(&mut out, "\n");
        },
        DebugResp::IsPaused(_) => {},
        DebugResp::TriggerRan(msg) => {
            push_str(&mut out, msg.as_str());
            push_str(&mut out, "\n");
        },
        DebugResp::Triggers(ts) => {
            push_str(&mut out, "Triggers:\n");
            push_triggers(&mut out, ts);
        },
        DebugResp::Pong => {},
        DebugResp::Disassembly { adl, disasm } => {
            push_str(&mut out, "\t.assume adl=");
            push_hex(&mut out, if *adl {
                1
            } else {
                0
            }, 1);
            push_str(&mut out, "\n");
            push_instructions(&mut out, disasm);
        },
        DebugResp::State { registers, stack, pc_instruction } => {
            push_padded(&mut out, pc_instruction.as_str(), 20);
            push_str(&mut out, " ");
            push_registers(&mut out, registers);
            push_stack(&mut out, registers, stack);
        },
        DebugResp::Registers(registers) => {
            push_registers(&mut out, registers);
        },
    }
    assert(out@ =~= response_text(*resp));
    text_of(&out)
}

} // verus!
