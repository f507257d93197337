//! The instruction word and its fields.
//!
//! A word is 16 bits wide. Bits 14..11 hold the opcode, bits 10..8 the first
//! register, bits 7..5 the second register, and bits 7..0 an 8-bit immediate
//! or address. Bit 15 is zero in every word that an encoder produces.
use vstd::prelude::*;

verus! {

pub const MOV: u16 = 0;
pub const ADD: u16 = 1;
pub const SUB: u16 = 2;
pub const AND: u16 = 3;
pub const OR: u16 = 4;
pub const SL: u16 = 5;
pub const SR: u16 = 6;
pub const SRA: u16 = 7;
pub const LDL: u16 = 8;
pub const LDH: u16 = 9;
pub const CMP: u16 = 10;
pub const JE: u16 = 11;
pub const JMP: u16 = 12;
pub const LD: u16 = 13;
pub const ST: u16 = 14;
pub const HLT: u16 = 15;

/// The opcode field of a word (everything above bit 10).
pub open spec fn field_op(w: int) -> int {
    w / 2048
}

/// The first register field of a word (bits 10..8).
pub open spec fn field_reg1(w: int) -> int {
    (w / 256) % 8
}

/// The second register field of a word (bits 7..5).
pub open spec fn field_reg2(w: int) -> int {
    (w / 32) % 8
}

/// The 8-bit immediate or address field of a word (bits 7..0).
pub open spec fn field_low(w: int) -> int {
    w % 256
}

/// The word of a two-register instruction.
pub open spec fn word_rr(op: int, r1: int, r2: int) -> int {
    op * 2048 + r1 * 256 + r2 * 32
}

/// The word of an instruction with a register and an 8-bit value.
pub open spec fn word_ri(op: int, r1: int, v: int) -> int {
    op * 2048 + r1 * 256 + v
}

/// The word of an instruction with an 8-bit address only.
pub open spec fn word_a(op: int, a: int) -> int {
    op * 2048 + a
}

/// Encoding a two-register instruction and decoding the word gives back
/// the opcode and both registers.
pub proof fn lemma_round_trip_rr(op: int, r1: int, r2: int)
    requires
        0 <= op < 16,
        0 <= r1 < 8,
        0 <= r2 < 8,
    ensures
        0 <= word_rr(op, r1, r2) < 0x8000,
        field_op(word_rr(op, r1, r2)) == op,
        field_reg1(word_rr(op, r1, r2)) == r1,
        field_reg2(word_rr(op, r1, r2)) == r2,
{
}

/// Encoding an instruction with a register and an 8-bit value and decoding
/// the word gives back the opcode, the register and the value.
pub proof fn lemma_round_trip_ri(op: int, r1: int, v: int)
    requires
        0 <= op < 16,
        0 <= r1 < 8,
        0 <= v < 256,
    ensures
        0 <= word_ri(op, r1, v) < 0x8000,
        field_op(word_ri(op, r1, v)) == op,
        field_reg1(word_ri(op, r1, v)) == r1,
        field_low(word_ri(op, r1, v)) == v,
{
}

/// Encoding an address-only instruction and decoding the word gives back the
/// opcode and the address.
pub proof fn lemma_round_trip_a(op: int, a: int)
    requires
        0 <= op < 16,
        0 <= a < 256,
    ensures
        0 <= word_a(op, a) < 0x8000,
        field_op(word_a(op, a)) == op,
        field_low(word_a(op, a)) == a,
{
}

pub(crate) fn encode_rr(op: u16, r1: u16, r2: u16) -> (r: u16)
    requires
        op < 16,
        r1 < 8,
        r2 < 8,
    ensures
        r == word_rr(op as int, r1 as int, r2 as int),
{
    assert((op << 11) | (r1 << 8) | (r2 << 5) == op * 2048 + r1 * 256 + r2 * 32) by (bit_vector)
        requires
            op < 16,
            r1 < 8,
            r2 < 8,
    ;
    (op << 11) | (r1 << 8) | (r2 << 5)
}

pub(crate) fn encode_ri(op: u16, r1: u16, v: u16) -> (r: u16)
    requires
        op < 16,
        r1 < 8,
        v < 256,
    ensures
        r == word_ri(op as int, r1 as int, v as int),
{
    assert((op << 11) | (r1 << 8) | v == op * 2048 + r1 * 256 + v) by (bit_vector)
        requires
            op < 16,
            r1 < 8,
            v < 256,
    ;
    (op << 11) | (r1 << 8) | v
}

pub fn op_code(code: u16) -> (r: u16)
    ensures
        r == field_op(code as int),
{
    assert(code >> 11 == code / 2048) by (bit_vector);
    code >> 11
}

pub fn reg1(code: u16) -> (r: u16)
    ensures
        r == field_reg1(code as int),
{
    assert((code >> 8) & 7 == (code / 256) % 8) by (bit_vector);
    (code >> 8) & 0b111
}

pub fn reg2(code: u16) -> (r: u16)
    ensures
        r == field_reg2(code as int),
{
    assert((code >> 5) & 7 == (code / 32) % 8) by (bit_vector);
    (code >> 5) & 0b111
}

/// The 8-bit immediate of a load-low or load-high word.
pub fn data(code: u16) -> (r: u16)
    ensures
        r == field_low(code as int),
{
    assert(code & 0xff == code % 256) by (bit_vector);
    code & 0b1111_1111
}

/// The 8-bit address of a jump, load or store word.
pub fn address(code: u16) -> (r: u16)
    ensures
        r == field_low(code as int),
{
    assert(code & 0xff == code % 256) by (bit_vector);
    code & 0b1111_1111
}

/// Encodes `reg[r1] = reg[r2]`.
pub fn mov(r1: u16, r2: u16) -> (r: u16)
    requires
        r1 < 8,
        r2 < 8,
    ensures
        r == word_rr(MOV as int, r1 as int, r2 as int),
{
    encode_rr(MOV, r1, r2)
}

/// Encodes `reg[r1] += reg[r2]`.
pub fn add(r1: u16, r2: u16) -> (r: u16)
    requires
        r1 < 8,
        r2 < 8,
    ensures
        r == word_rr(ADD as int, r1 as int, r2 as int),
{
    encode_rr(ADD, r1, r2)
}

/// Encodes `reg[r1] -= reg[r2]`.
pub fn sub(r1: u16, r2: u16) -> (r: u16)
    requires
        r1 < 8,
        r2 < 8,
    ensures
        r == word_rr(SUB as int, r1 as int, r2 as int),
{
    encode_rr(SUB, r1, r2)
}

/// Encodes `reg[r1] &= reg[r2]`.
pub fn and(r1: u16, r2: u16) -> (r: u16)
    requires
        r1 < 8,
        r2 < 8,
    ensures
        r == word_rr(AND as int, r1 as int, r2 as int),
{
    encode_rr(AND, r1, r2)
}

/// Encodes `reg[r1] |= reg[r2]`.
pub fn or(r1: u16, r2: u16) -> (r: u16)
    requires
        r1 < 8,
        r2 < 8,
    ensures
        r == word_rr(OR as int, r1 as int, r2 as int),
{
    encode_rr(OR, r1, r2)
}

/// Encodes `flag = (reg[r1] == reg[r2])`.
pub fn cmp(r1: u16, r2: u16) -> (r: u16)
    requires
        r1 < 8,
        r2 < 8,
    ensures
        r == word_rr(CMP as int, r1 as int, r2 as int),
{
    encode_rr(CMP, r1, r2)
}

/// Encodes a logical shift left of reg[r1] by one.
pub fn sl(r1: u16) -> (r: u16)
    requires
        r1 < 8,
    ensures
        r == word_rr(SL as int, r1 as int, 0),
{
    encode_rr(SL, r1, 0)
}

/// Encodes a logical shift right of reg[r1] by one.
pub fn sr(r1: u16) -> (r: u16)
    requires
        r1 < 8,
    ensures
        r == word_rr(SR as int, r1 as int, 0),
{
    encode_rr(SR, r1, 0)
}

/// Encodes an arithmetic shift right of reg[r1] by one.
pub fn sra(r1: u16) -> (r: u16)
    requires
        r1 < 8,
    ensures
        r == word_rr(SRA as int, r1 as int, 0),
{
    encode_rr(SRA, r1, 0)
}

/// Encodes a load of `data` into the low byte of reg[r1].
pub fn ldl(r1: u16, data: u16) -> (r: u16)
    requires
        r1 < 8,
        data < 256,
    ensures
        r == word_ri(LDL as int, r1 as int, data as int),
{
    encode_ri(LDL, r1, data)
}

/// Encodes a load of `data` into the high byte of reg[r1].
pub fn ldh(r1: u16, data: u16) -> (r: u16)
    requires
        r1 < 8,
        data < 256,
    ensures
        r == word_ri(LDH as int, r1 as int, data as int),
{
    encode_ri(LDH, r1, data)
}

/// Encodes reg[r1] = ram[addr].
pub fn ld(r1: u16, addr: u16) -> (r: u16)
    requires
        r1 < 8,
        addr < 256,
    ensures
        r == word_ri(LD as int, r1 as int, addr as int),
{
    encode_ri(LD, r1, addr)
}

/// Encodes ram[addr] = reg[r1].
pub fn st(r1: u16, addr: u16) -> (r: u16)
    requires
        r1 < 8,
        addr < 256,
    ensures
        r == word_ri(ST as int, r1 as int, addr as int),
{
    encode_ri(ST, r1, addr)
}

/// Encodes a jump to `addr` taken when the flag is set.
pub fn je(addr: u16) -> (r: u16)
    requires
        addr < 256,
    ensures
        r == word_a(JE as int, addr as int),
{
    encode_ri(JE, 0, addr)
}

/// Encodes an unconditional jump to `addr`.
pub fn jmp(addr: u16) -> (r: u16)
    requires
        addr < 256,
    ensures
        r == word_a(JMP as int, addr as int),
{
    encode_ri(JMP, 0, addr)
}

/// Encodes the halt instruction.
pub fn hlt() -> (r: u16)
    ensures
        r == word_a(HLT as int, 0),
{
    encode_ri(HLT, 0, 0)
}

} // verus!
