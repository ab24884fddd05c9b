//! Rendering of instruction words as mnemonics, for debugging.
use vstd::prelude::*;
use vstd::string::StringExecFns;
use crate::machine::{comp_field, dest_field, is_compute, jump_field};

verus! {

/// The symbolic form of a control code (the a-bit in bit 6); `?` when the
/// code has none.
pub open spec fn comp_mnemonic(c: u16) -> Seq<char> {
    if c == 0x2a {
        "0"@
    } else if c == 0x3f {
        "1"@
    } else if c == 0x3a {
        "-1"@
    } else if c == 0x0c {
        "D"@
    } else if c == 0x30 {
        "A"@
    } else if c == 0x0d {
        "!D"@
    } else if c == 0x31 {
        "!A"@
    } else if c == 0x0f {
        "-D"@
    } else if c == 0x33 {
        "-A"@
    } else if c == 0x1f {
        "D+1"@
    } else if c == 0x37 {
        "A+1"@
    } else if c == 0x0e {
        "D-1"@
    } else if c == 0x32 {
        "A-1"@
    } else if c == 0x02 {
        "D+A"@
    } else if c == 0x13 {
        "D-A"@
    } else if c == 0x07 {
        "A-D"@
    } else if c == 0x00 {
        "D&A"@
    } else if c == 0x15 {
        "D|A"@
    } else if c == 0x70 {
        "M"@
    } else if c == 0x71 {
        "!M"@
    } else if c == 0x73 {
        "-M"@
    } else if c == 0x77 {
        "M+1"@
    } else if c == 0x72 {
        "M-1"@
    } else if c == 0x42 {
        "D+M"@
    } else if c == 0x53 {
        "D-M"@
    } else if c == 0x47 {
        "M-D"@
    } else if c == 0x40 {
        "D&M"@
    } else if c == 0x55 {
        "D|M"@
    } else {
        "?"@
    }
}

/// The registers that a destination code names; empty for none.
pub open spec fn dest_mnemonic(d: u16) -> Seq<char> {
    if d == 0x01 {
        "M"@
    } else if d == 0x02 {
        "D"@
    } else if d == 0x03 {
        "MD"@
    } else if d == 0x04 {
        "A"@
    } else if d == 0x05 {
        "AM"@
    } else if d == 0x06 {
        "AD"@
    } else if d == 0x07 {
        "AMD"@
    } else {
        ""@
    }
}

/// The condition that a jump code names; empty for none.
pub open spec fn jump_mnemonic(j: u16) -> Seq<char> {
    if j == 0x01 {
        "JGT"@
    } else if j == 0x02 {
        "JEQ"@
    } else if j == 0x03 {
        "JGE"@
    } else if j == 0x04 {
        "JLT"@
    } else if j == 0x05 {
        "JNE"@
    } else if j == 0x06 {
        "JLE"@
    } else if j == 0x07 {
        "JMP"@
    } else {
        ""@
    }
}

/// A decimal digit.
pub open spec fn digit_text(d: nat) -> Seq<char> {
    if d == 0 {
        "0"@
    } else if d == 1 {
        "1"@
    } else if d == 2 {
        "2"@
    } else if d == 3 {
        "3"@
    } else if d == 4 {
        "4"@
    } else if d == 5 {
        "5"@
    } else if d == 6 {
        "6"@
    } else if d == 7 {
        "7"@
    } else if d == 8 {
        "8"@
    } else if d == 9 {
        "9"@
    } else {
        ""@
    }
}

/// The decimal numeral of `n`, without leading zeros.
pub open spec fn decimal(n: nat) -> Seq<char>
    decreases n,
{
    if n < 10 {
        digit_text(n)
    } else {
        decimal(n / 10) + digit_text(n % 10)
    }
}

/// The mnemonic of an instruction word: `dest=comp;jump` for a
/// compute-instruction, leaving out an empty destination and its `=` and an
/// empty jump and its `;`; `@` and the value in decimal for an
/// address-instruction.
pub open spec fn disasm(op: u16) -> Seq<char> {
    if is_compute(op) {
        let d = dest_field(op);
        let j = jump_field(op);
        let head = if d == 0 { Seq::empty() } else { dest_mnemonic(d) + "="@ };
        let tail = if j == 0 { Seq::empty() } else { ";"@ + jump_mnemonic(j) };
        head + comp_mnemonic(comp_field(op)) + tail
    } else {
        "@"@ + decimal((op & 0x7fff) as nat)
    }
}

/// The symbolic form of a control code.
fn comp_text(c: u16) -> (r: &'static str)
    ensures
        r@ == comp_mnemonic(c),
{
    match c {
        0x2a => "0",
        0x3f => "1",
        0x3a => "-1",
        0x0c => "D",
        0x30 => "A",
        0x0d => "!D",
        0x31 => "!A",
        0x0f => "-D",
        0x33 => "-A",
        0x1f => "D+1",
        0x37 => "A+1",
        0x0e => "D-1",
        0x32 => "A-1",
        0x02 => "D+A",
        0x13 => "D-A",
        0x07 => "A-D",
        0x00 => "D&A",
        0x15 => "D|A",
        0x70 => "M",
        0x71 => "!M",
        0x73 => "-M",
        0x77 => "M+1",
        0x72 => "M-1",
        0x42 => "D+M",
        0x53 => "D-M",
        0x47 => "M-D",
        0x40 => "D&M",
        0x55 => "D|M",
        _ => "?",
    }
}

/// The registers that a destination code names.
fn dest_text(d: u16) -> (r: &'static str)
    ensures
        r@ == dest_mnemonic(d),
{
    match d {
        0x01 => "M",
        0x02 => "D",
        0x03 => "MD",
        0x04 => "A",
        0x05 => "AM",
        0x06 => "AD",
        0x07 => "AMD",
        _ => "",
    }
}

/// The condition that a jump code names.
fn jump_text(j: u16) -> (r: &'static str)
    ensures
        r@ == jump_mnemonic(j),
{
    match j {
        0x01 => "JGT",
        0x02 => "JEQ",
        0x03 => "JGE",
        0x04 => "JLT",
        0x05 => "JNE",
        0x06 => "JLE",
        0x07 => "JMP",
        _ => "",
    }
}

/// A decimal digit.
fn digit_str(d: u16) -> (r: &'static str)
    ensures
        r@ == digit_text(d as nat),
{
    match d {
        0 => "0",
        1 => "1",
        2 => "2",
        3 => "3",
        4 => "4",
        5 => "5",
        6 => "6",
        7 => "7",
        8 => "8",
        9 => "9",
        _ => "",
    }
}

/// Appends the decimal numeral of `n` to `out`.
fn push_decimal(out: &mut String, n: u16)
    ensures
        final(out)@ == old(out)@ + decimal(n as nat),
    decreases n,
{
    if n >= 10 {
        push_decimal(out, n / 10);
    }
    out.append(digit_str(n % 10));
    proof {
        if n < 10 {
            assert(n % 10 == n);
        }
        assert(decimal(n as nat) == if n < 10 {
            digit_text(n as nat)
        } else {
            decimal((n / 10) as nat) + digit_text((n % 10) as nat)
        });
    }
}

/// Renders an instruction word as its mnemonic.
pub fn disassemble(opcode: u16) -> (r: String)
    ensures
        r@ == disasm(opcode),
{
    let mut res = String::new();
    if opcode >> 15 == 1 {
        let comp = (opcode & 0x1fc0) >> 6;
        let dest = (opcode & 0x0038) >> 3;
        let jump = opcode & 0x0007;
        if dest != 0 {
            res.append(dest_text(dest));
            res.append("=");
        }
        res.append(comp_text(comp));
        if jump != 0 {
            res.append(";");
            res.append(jump_text(jump));
        }
    } else {
        res.append("@");
        push_decimal(&mut res, opcode & 0x7fff);
    }
    res
}

/// Every address-instruction renders as `@` and its 15-bit value in decimal.
pub proof fn lemma_disasm_address(op: u16)
    requires
        !is_compute(op),
    ensures
        disasm(op) == "@"@ + decimal((op & 0x7fff) as nat),
{
}

/// A compute-instruction with no destination and no jump renders as the
/// symbolic form of its control code alone.
pub proof fn lemma_disasm_bare_compute(op: u16)
    requires
        is_compute(op),
        dest_field(op) == 0,
        jump_field(op) == 0,
    ensures
        disasm(op) == comp_mnemonic(comp_field(op)),
{
    assert(Seq::<char>::empty() + comp_mnemonic(comp_field(op)) + Seq::<char>::empty() =~= comp_mnemonic(
        comp_field(op),
    ));
}

} // verus!
