//! The arithmetic/logic unit: a pure function of two words and a 6-bit
//! control code.
use vstd::prelude::*;

verus! {

/// Whether bit `i` of `w` is set.
pub open spec fn bit_set(w: u16, i: u16) -> bool {
    (w >> i) & 1 == 1
}

/// First operand after the `zx` (bit 5) and `nx` (bit 4) flags.
pub open spec fn alu_in_x(x: u16, comp: u16) -> u16 {
    let z = if bit_set(comp, 5) { 0u16 } else { x };
    if bit_set(comp, 4) { !z } else { z }
}

/// Second operand after the `zy` (bit 3) and `ny` (bit 2) flags.
pub open spec fn alu_in_y(y: u16, comp: u16) -> u16 {
    let z = if bit_set(comp, 3) { 0u16 } else { y };
    if bit_set(comp, 2) { !z } else { z }
}

/// The ALU result: sum modulo 2^16 (`f`, bit 1) or bitwise and, negated
/// when `no` (bit 0) is set.
pub open spec fn alu_out(x: u16, y: u16, comp: u16) -> u16 {
    let a = alu_in_x(x, comp);
    let b = alu_in_y(y, comp);
    let r = if bit_set(comp, 1) { (a + b) as u16 } else { a & b };
    if bit_set(comp, 0) { !r } else { r }
}

/// The word read as a two's-complement number is below zero.
pub open spec fn is_negative(w: u16) -> bool {
    w >= 0x8000
}

/// Runs the ALU on `x`, `y` and the low six bits of `comp`; returns the
/// result with the zero flag and the negative flag.
pub fn compute(x: u16, y: u16, comp: u16) -> (r: (u16, bool, bool))
    ensures
        r.0 == alu_out(x, y, comp),
        r.1 == (r.0 == 0),
        r.2 == is_negative(r.0),
{
    let mut a = x;
    let mut b = y;
    if (comp >> 5) & 1 == 1 {
        a = 0;
    }
    if (comp >> 4) & 1 == 1 {
        a = !a;
    }
    if (comp >> 3) & 1 == 1 {
        b = 0;
    }
    if (comp >> 2) & 1 == 1 {
        b = !b;
    }
    let mut out = if (comp >> 1) & 1 == 1 {
        let s = a.wrapping_add(b);
        assert(s == (a + b) as u16) by (bit_vector)
            requires
                s == vstd::wrapping::u16_specs::wrapping_add(a, b),
        ;
        s
    } else {
        a & b
    };
    if comp & 1 == 1 {
        out = !out;
    }
    assert((comp >> 0u16) == comp) by (bit_vector);
    let ng = (out >> 15) & 1 == 1;
    assert(((out >> 15) & 1 == 1) == (out >= 0x8000)) by (bit_vector);
    (out, out == 0, ng)
}

/// Each control code of the mnemonic table computes its mnemonic on the
/// first operand `x` (the data register) and the second `y` (the address
/// register or the memory operand), modulo 2^16.
pub proof fn lemma_alu_mnemonics(x: u16, y: u16)
    ensures
        alu_out(x, y, 0x2a) == 0,
        alu_out(x, y, 0x3f) == 1,
        alu_out(x, y, 0x3a) == 0xffff,
        alu_out(x, y, 0x0c) == x,
        alu_out(x, y, 0x30) == y,
        alu_out(x, y, 0x0d) == !x,
        alu_out(x, y, 0x31) == !y,
        alu_out(x, y, 0x0f) == (0 - x) as u16,
        alu_out(x, y, 0x33) == (0 - y) as u16,
        alu_out(x, y, 0x1f) == (x + 1) as u16,
        alu_out(x, y, 0x37) == (y + 1) as u16,
        alu_out(x, y, 0x0e) == (x - 1) as u16,
        alu_out(x, y, 0x32) == (y - 1) as u16,
        alu_out(x, y, 0x02) == (x + y) as u16,
        alu_out(x, y, 0x13) == (x - y) as u16,
        alu_out(x, y, 0x07) == (y - x) as u16,
        alu_out(x, y, 0x00) == x & y,
        alu_out(x, y, 0x15) == x | y,
{
    assert(alu_out(x, y, 0x2a) == 0) by (bit_vector);
    assert(alu_out(x, y, 0x3f) == 1) by (bit_vector);
    assert(alu_out(x, y, 0x3a) == 0xffff) by (bit_vector);
    assert(alu_out(x, y, 0x0c) == x) by (bit_vector);
    assert(alu_out(x, y, 0x30) == y) by (bit_vector);
    assert(alu_out(x, y, 0x0d) == !x) by (bit_vector);
    assert(alu_out(x, y, 0x31) == !y) by (bit_vector);
    assert(alu_out(x, y, 0x0f) == (0 - x) as u16) by (bit_vector);
    assert(alu_out(x, y, 0x33) == (0 - y) as u16) by (bit_vector);
    assert(alu_out(x, y, 0x1f) == (x + 1) as u16) by (bit_vector);
    assert(alu_out(x, y, 0x37) == (y + 1) as u16) by (bit_vector);
    assert(alu_out(x, y, 0x0e) == (x - 1) as u16) by (bit_vector);
    assert(alu_out(x, y, 0x32) == (y - 1) as u16) by (bit_vector);
    assert(alu_out(x, y, 0x02) == (x + y) as u16) by (bit_vector);
    assert(alu_out(x, y, 0x13) == (x - y) as u16) by (bit_vector);
    assert(alu_out(x, y, 0x07) == (y - x) as u16) by (bit_vector);
    assert(alu_out(x, y, 0x00) == x & y) by (bit_vector);
    assert(alu_out(x, y, 0x15) == x | y) by (bit_vector);
}

/// The ALU reads only the low six bits of the control code, so the a-bit
/// riding along in bit 6 does not change the result.
pub proof fn lemma_alu_ignores_a_bit(x: u16, y: u16, comp: u16)
    ensures
        alu_out(x, y, comp | 0x40) == alu_out(x, y, comp),
{
    assert(alu_out(x, y, comp | 0x40) == alu_out(x, y, comp)) by (bit_vector);
}

} // verus!
