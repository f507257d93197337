//! Translation of mnemonic source lines into instruction words.
use vstd::prelude::*;

use crate::codec;
use crate::codec::{
    word_a, word_ri, word_rr, ADD, AND, CMP, HLT, JE, JMP, LD, LDH, LDL, MOV, OR, SL, SR, SRA, ST,
    SUB,
};
use crate::text::{split_tokens, str_eq, tokens};

verus! {

/// What is wrong with a rejected line.
#[derive(Debug, Clone, Copy, PartialEq, Eq)]
pub enum AsmErrorKind {
    /// The line holds no token at all.
    EmptyLine,
    /// The first token names no instruction.
    UnknownMnemonic,
    /// The instruction was given too few or too many operands.
    WrongOperandCount,
    /// An operand that must name a register is not one of `reg0`..`reg7`.
    BadRegister,
    /// An operand that must be a number is not a decimal unsigned integer.
    NotANumber,
    /// A numeric operand is above 255.
    OutOfRange,
}

/// A rejected line: its 1-based number, the offending token and the reason.
#[derive(Debug, Clone, PartialEq, Eq)]
pub struct AsmError {
    pub line: usize,
    pub token: String,
    pub kind: AsmErrorKind,
}

impl AsmErrorKind {
    /// A short human-readable description.
    pub fn describe(&self) -> &'static str {
        match self {
            AsmErrorKind::EmptyLine => "empty line",
            AsmErrorKind::UnknownMnemonic => "invalid instruction",
            AsmErrorKind::WrongOperandCount => "wrong number of operands",
            AsmErrorKind::BadRegister => "a register reg0..reg7 was expected",
            AsmErrorKind::NotANumber => "an unsigned decimal number was expected",
            AsmErrorKind::OutOfRange => "8-bit data or address (0..255) was expected",
        }
    }
}

/// A token in error, with what is wrong with it.
pub type LineFault = (Seq<char>, AsmErrorKind);

pub open spec fn is_digit(c: char) -> bool {
    0x30 <= c as u32 <= 0x39
}

/// The digits of a numeric token: the token without one leading `+`.
pub open spec fn digits_part(t: Seq<char>) -> Seq<char> {
    if t.len() > 0 && t[0] == '+' {
        t.drop_first()
    } else {
        t
    }
}

pub open spec fn is_decimal(t: Seq<char>) -> bool {
    let d = digits_part(t);
    d.len() > 0 && forall|i: int| 0 <= i < d.len() ==> is_digit(#[trigger] d[i])
}

/// The value of a string of decimal digits.
pub open spec fn dec_value(d: Seq<char>) -> nat
    decreases d.len(),
{
    if d.len() == 0 {
        0
    } else {
        10 * dec_value(d.drop_last()) + (d.last() as u32 - 0x30) as nat
    }
}

/// An immediate or address operand.
pub open spec fn value_of(t: Seq<char>) -> Result<u16, AsmErrorKind> {
    if !is_decimal(t) {
        Err(AsmErrorKind::NotANumber)
    } else if dec_value(digits_part(t)) > 255 {
        Err(AsmErrorKind::OutOfRange)
    } else {
        Ok(dec_value(digits_part(t)) as u16)
    }
}

/// A register operand.
pub open spec fn register_of(t: Seq<char>) -> Option<u16> {
    if t == "reg0"@ {
        Some(0u16)
    } else if t == "reg1"@ {
        Some(1u16)
    } else if t == "reg2"@ {
        Some(2u16)
    } else if t == "reg3"@ {
        Some(3u16)
    } else if t == "reg4"@ {
        Some(4u16)
    } else if t == "reg5"@ {
        Some(5u16)
    } else if t == "reg6"@ {
        Some(6u16)
    } else if t == "reg7"@ {
        Some(7u16)
    } else {
        None
    }
}

/// The opcode of a mnemonic; each instruction has a short and a long name.
pub open spec fn mnemonic_opcode(m: Seq<char>) -> Option<u16> {
    if m == "mov"@ || m == "move"@ {
        Some(MOV)
    } else if m == "add"@ {
        Some(ADD)
    } else if m == "sub"@ {
        Some(SUB)
    } else if m == "and"@ {
        Some(AND)
    } else if m == "or"@ {
        Some(OR)
    } else if m == "sl"@ || m == "shift-left"@ {
        Some(SL)
    } else if m == "sr"@ || m == "shift-right"@ {
        Some(SR)
    } else if m == "sra"@ || m == "shift-right-arith"@ {
        Some(SRA)
    } else if m == "ldl"@ || m == "load-low"@ {
        Some(LDL)
    } else if m == "ldh"@ || m == "load-high"@ {
        Some(LDH)
    } else if m == "cmp"@ || m == "compare"@ {
        Some(CMP)
    } else if m == "je"@ || m == "jump-if-equal"@ {
        Some(JE)
    } else if m == "jmp"@ || m == "jump"@ {
        Some(JMP)
    } else if m == "ld"@ || m == "load"@ {
        Some(LD)
    } else if m == "st"@ || m == "store"@ {
        Some(ST)
    } else if m == "hlt"@ || m == "halt"@ {
        Some(HLT)
    } else {
        None
    }
}

/// Instructions with two register operands.
pub open spec fn takes_two_regs(op: u16) -> bool {
    op == MOV || op == ADD || op == SUB || op == AND || op == OR || op == CMP
}

/// Instructions with one register operand.
pub open spec fn takes_one_reg(op: u16) -> bool {
    op == SL || op == SR || op == SRA
}

/// Instructions with a register and an 8-bit value.
pub open spec fn takes_reg_value(op: u16) -> bool {
    op == LDL || op == LDH || op == LD || op == ST
}

/// Instructions with an 8-bit address only.
pub open spec fn takes_value(op: u16) -> bool {
    op == JE || op == JMP
}

pub open spec fn operand_count(op: u16) -> nat {
    if takes_two_regs(op) || takes_reg_value(op) {
        2
    } else if takes_one_reg(op) || takes_value(op) {
        1
    } else {
        0
    }
}

pub open spec fn reg_operand(t: Seq<char>) -> Result<u16, LineFault> {
    match register_of(t) {
        Some(r) => Ok(r),
        None => Err((t, AsmErrorKind::BadRegister)),
    }
}

pub open spec fn value_operand(t: Seq<char>) -> Result<u16, LineFault> {
    match value_of(t) {
        Ok(v) => Ok(v),
        Err(k) => Err((t, k)),
    }
}

/// The word for opcode `op` and its operand tokens `toks[1..]`, whose count
/// is right; operands are checked left to right.
pub open spec fn operands_result(op: u16, toks: Seq<Seq<char>>) -> Result<u16, LineFault> {
    if takes_two_regs(op) {
        match reg_operand(toks[1]) {
            Err(f) => Err(f),
            Ok(r1) => match reg_operand(toks[2]) {
                Err(f) => Err(f),
                Ok(r2) => Ok(word_rr(op as int, r1 as int, r2 as int) as u16),
            },
        }
    } else if takes_one_reg(op) {
        match reg_operand(toks[1]) {
            Err(f) => Err(f),
            Ok(r1) => Ok(word_rr(op as int, r1 as int, 0) as u16),
        }
    } else if takes_reg_value(op) {
        match reg_operand(toks[1]) {
            Err(f) => Err(f),
            Ok(r1) => match value_operand(toks[2]) {
                Err(f) => Err(f),
                Ok(v) => Ok(word_ri(op as int, r1 as int, v as int) as u16),
            },
        }
    } else if takes_value(op) {
        match value_operand(toks[1]) {
            Err(f) => Err(f),
            Ok(a) => Ok(word_a(op as int, a as int) as u16),
        }
    } else {
        Ok(word_a(op as int, 0) as u16)
    }
}

/// The word of a line split into tokens, or what is wrong with it.
pub open spec fn line_result(toks: Seq<Seq<char>>) -> Result<u16, LineFault> {
    if toks.len() == 0 {
        Err((Seq::empty(), AsmErrorKind::EmptyLine))
    } else {
        match mnemonic_opcode(toks[0]) {
            None => Err((toks[0], AsmErrorKind::UnknownMnemonic)),
            Some(op) => if toks.len() != operand_count(op) + 1 {
                Err((toks[0], AsmErrorKind::WrongOperandCount))
            } else {
                operands_result(op, toks)
            },
        }
    }
}

/// `r` is what a line numbered `line_no` whose outcome is `s` reports.
pub open spec fn reports(r: Result<u16, AsmError>, line_no: usize, s: Result<u16, LineFault>) -> bool {
    match s {
        Ok(w) => r == Ok::<u16, AsmError>(w),
        Err(f) => {
            &&& r is Err
            &&& r->Err_0.line == line_no
            &&& r->Err_0.token@ == f.0
            &&& r->Err_0.kind == f.1
        },
    }
}

fn fault(line_no: usize, t: &String, kind: AsmErrorKind) -> (r: AsmError)
    ensures
        r.line == line_no,
        r.token@ == t@,
        r.kind == kind,
{
    AsmError { line: line_no, token: t.clone(), kind }
}

/// Reads a decimal unsigned operand of at most 255.
pub fn parse_value(t: &str) -> (r: Result<u16, AsmErrorKind>)
    ensures
        r == value_of(t@),
{
    let n = t.unicode_len();
    let mut i: usize = 0;
    if n > 0 && t.get_char(0) == '+' {
        i = 1;
    }
    let off = i;
    let ghost d = digits_part(t@);
    assert(d =~= t@.subrange(off as int, n as int));
    if off == n {
        return Err(AsmErrorKind::NotANumber);
    }
    let mut v: u16 = 0;
    while i < n
        invariant
            n == t@.len(),
            off <= i <= n,
            d == t@.subrange(off as int, n as int),
            d == digits_part(t@),
            forall|j: int| 0 <= j < i - off ==> is_digit(#[trigger] d[j]),
            v == if dec_value(d.take(i - off)) < 256 {
                dec_value(d.take(i - off))
            } else {
                256
            },
        decreases n - i,
    {
        let c = t.get_char(i);
        assert(c == d[i - off]);
        let u = c as u32;
        if !(0x30 <= u && u <= 0x39) {
            assert(!is_digit(d[i - off]));
            return Err(AsmErrorKind::NotANumber);
        }
        let digit = (u - 0x30) as u16;
        assert(d.take(i - off + 1).drop_last() =~= d.take(i - off));
        assert(dec_value(d.take(i - off + 1)) == 10 * dec_value(d.take(i - off)) + digit);
        if v < 256 {
            v = 10 * v + digit;
            if v > 256 {
                v = 256;
            }
        }
        i = i + 1;
    }
    assert(d.take(n - off) =~= d);
    if v > 255 {
        Err(AsmErrorKind::OutOfRange)
    } else {
        Ok(v)
    }
}

/// Reads a register operand.
pub fn parse_register(t: &str) -> (r: Option<u16>)
    ensures
        r == register_of(t@),
{
    if str_eq(t, "reg0") {
        Some(0)
    } else if str_eq(t, "reg1") {
        Some(1)
    } else if str_eq(t, "reg2") {
        Some(2)
    } else if str_eq(t, "reg3") {
        Some(3)
    } else if str_eq(t, "reg4") {
        Some(4)
    } else if str_eq(t, "reg5") {
        Some(5)
    } else if str_eq(t, "reg6") {
        Some(6)
    } else if str_eq(t, "reg7") {
        Some(7)
    } else {
        None
    }
}

/// Looks up the opcode of a mnemonic.
pub fn parse_mnemonic(m: &str) -> (r: Option<u16>)
    ensures
        r == mnemonic_opcode(m@),
{
    if str_eq(m, "mov") || str_eq(m, "move") {
        Some(MOV)
    } else if str_eq(m, "add") {
        Some(ADD)
    } else if str_eq(m, "sub") {
        Some(SUB)
    } else if str_eq(m, "and") {
        Some(AND)
    } else if str_eq(m, "or") {
        Some(OR)
    } else if str_eq(m, "sl") || str_eq(m, "shift-left") {
        Some(SL)
    } else if str_eq(m, "sr") || str_eq(m, "shift-right") {
        Some(SR)
    } else if str_eq(m, "sra") || str_eq(m, "shift-right-arith") {
        Some(SRA)
    } else if str_eq(m, "ldl") || str_eq(m, "load-low") {
        Some(LDL)
    } else if str_eq(m, "ldh") || str_eq(m, "load-high") {
        Some(LDH)
    } else if str_eq(m, "cmp") || str_eq(m, "compare") {
        Some(CMP)
    } else if str_eq(m, "je") || str_eq(m, "jump-if-equal") {
        Some(JE)
    } else if str_eq(m, "jmp") || str_eq(m, "jump") {
        Some(JMP)
    } else if str_eq(m, "ld") || str_eq(m, "load") {
        Some(LD)
    } else if str_eq(m, "st") || str_eq(m, "store") {
        Some(ST)
    } else if str_eq(m, "hlt") || str_eq(m, "halt") {
        Some(HLT)
    } else {
        None
    }
}

fn get_register(line_no: usize, t: &String) -> (r: Result<u16, AsmError>)
    ensures
        reports(r, line_no, reg_operand(t@)),
        r matches Ok(x) ==> x < 8,
{
    match parse_register(t.as_str()) {
        Some(x) => Ok(x),
        None => Err(fault(line_no, t, AsmErrorKind::BadRegister)),
    }
}

fn get_value(line_no: usize, t: &String) -> (r: Result<u16, AsmError>)
    ensures
        reports(r, line_no, value_operand(t@)),
        r matches Ok(x) ==> x < 256,
{
    match parse_value(t.as_str()) {
        Ok(x) => Ok(x),
        Err(k) => Err(fault(line_no, t, k)),
    }
}

fn count_operands(op: u16) -> (r: usize)
    ensures
        r == operand_count(op),
{
    if op == MOV || op == ADD || op == SUB || op == AND || op == OR || op == CMP || op == LDL
        || op == LDH || op == LD || op == ST {
        2
    } else if op == SL || op == SR || op == SRA || op == JE || op == JMP {
        1
    } else {
        0
    }
}

/// Translates one source line, numbered `line_no`, into its word.
pub fn assemble_line(line_no: usize, line: &str) -> (r: Result<u16, AsmError>)
    ensures
        reports(r, line_no, line_result(tokens(line@))),
{
    let toks = split_tokens(line);
    let ghost ts = tokens(line@);
    if toks.len() == 0 {
        return Err(AsmError { line: line_no, token: String::new(), kind: AsmErrorKind::EmptyLine });
    }
    let op = match parse_mnemonic(toks[0].as_str()) {
        None => {
            return Err(fault(line_no, &toks[0], AsmErrorKind::UnknownMnemonic));
        },
        Some(op) => op,
    };
    if toks.len() != count_operands(op) + 1 {
        return Err(fault(line_no, &toks[0], AsmErrorKind::WrongOperandCount));
    }
    if op == MOV || op == ADD || op == SUB || op == AND || op == OR || op == CMP {
        assert(toks@[1]@ == ts[1]);
        assert(toks@[2]@ == ts[2]);
        let r1 = match get_register(line_no, &toks[1]) {
            Err(e) => {
                return Err(e);
            },
            Ok(x) => x,
        };
        let r2 = match get_register(line_no, &toks[2]) {
            Err(e) => {
                return Err(e);
            },
            Ok(x) => x,
        };
        if op == MOV {
            Ok(codec::mov(r1, r2))
        } else if op == ADD {
            Ok(codec::add(r1, r2))
        } else if op == SUB {
            Ok(codec::sub(r1, r2))
        } else if op == AND {
            Ok(codec::and(r1, r2))
        } else if op == OR {
            Ok(codec::or(r1, r2))
        } else {
            Ok(codec::cmp(r1, r2))
        }
    } else if op == SL || op == SR || op == SRA {
        assert(toks@[1]@ == ts[1]);
        let r1 = match get_register(line_no, &toks[1]) {
            Err(e) => {
                return Err(e);
            },
            Ok(x) => x,
        };
        if op == SL {
            Ok(codec::sl(r1))
        } else if op == SR {
            Ok(codec::sr(r1))
        } else {
            Ok(codec::sra(r1))
        }
    } else if op == LDL || op == LDH || op == LD || op == ST {
        assert(toks@[1]@ == ts[1]);
        assert(toks@[2]@ == ts[2]);
        let r1 = match get_register(line_no, &toks[1]) {
            Err(e) => {
                return Err(e);
            },
            Ok(x) => x,
        };
        let v = match get_value(line_no, &toks[2]) {
            Err(e) => {
                return Err(e);
            },
            Ok(x) => x,
        };
        if op == LDL {
            Ok(codec::ldl(r1, v))
        } else if op == LDH {
            Ok(codec::ldh(r1, v))
        } else if op == LD {
            Ok(codec::ld(r1, v))
        } else {
            Ok(codec::st(r1, v))
        }
    } else if op == JE || op == JMP {
        assert(toks@[1]@ == ts[1]);
        let a = match get_value(line_no, &toks[1]) {
            Err(e) => {
                return Err(e);
            },
            Ok(x) => x,
        };
        if op == JE {
            Ok(codec::je(a))
        } else {
            Ok(codec::jmp(a))
        }
    } else {
        Ok(codec::hlt())
    }
}

/// Every word that a line translates to leaves bit 15 clear, so its opcode is
/// one of the sixteen defined ones.
pub proof fn lemma_line_word_valid(toks: Seq<Seq<char>>)
    ensures
        line_result(toks) matches Ok(w) ==> w < 0x8000,
{
    if let Ok(w) = line_result(toks) {
        let op = mnemonic_opcode(toks[0]).unwrap();
        assert(op < 16);
        if takes_two_regs(op) {
            let r1 = register_of(toks[1]).unwrap();
            let r2 = register_of(toks[2]).unwrap();
            codec::lemma_round_trip_rr(op as int, r1 as int, r2 as int);
        } else if takes_one_reg(op) {
            let r1 = register_of(toks[1]).unwrap();
            codec::lemma_round_trip_rr(op as int, r1 as int, 0);
        } else if takes_reg_value(op) {
            let r1 = register_of(toks[1]).unwrap();
            let v = value_of(toks[2]).unwrap();
            codec::lemma_round_trip_ri(op as int, r1 as int, v as int);
        } else if takes_value(op) {
            let v = value_of(toks[1]).unwrap();
            codec::lemma_round_trip_a(op as int, v as int);
        } else {
            codec::lemma_round_trip_a(op as int, 0);
        }
    }
}

/// Whether a source line translates to a word.
pub open spec fn line_ok(l: Seq<char>) -> bool {
    line_result(tokens(l)) is Ok
}

/// Translates the source lines, in order, into a program: one word per
/// line. The first line that does not translate stops the translation, and
/// its number (counted from 1), offending token and reason are returned.
pub fn assembler(lines: &Vec<String>) -> (r: Result<Vec<u16>, AsmError>)
    ensures
        r is Ok <==> forall|i: int| 0 <= i < lines@.len() ==> line_ok(#[trigger] lines@[i]@),
        r matches Ok(p) ==> {
            &&& p@.len() == lines@.len()
            &&& forall|i: int| 0 <= i < p@.len() ==> #[trigger] p@[i] < 0x8000
            &&& forall|i: int|
                0 <= i < lines@.len() ==> line_result(tokens(#[trigger] lines@[i]@)) == Ok::<
                    u16,
                    LineFault,
                >(p@[i])
        },
        r matches Err(e) ==> {
            &&& 1 <= e.line <= lines@.len()
            &&& forall|i: int| 0 <= i < e.line - 1 ==> line_ok(#[trigger] lines@[i]@)
            &&& line_result(tokens(lines@[e.line - 1]@)) == Err::<u16, LineFault>(
                (e.token@, e.kind),
            )
        },
{
    let mut program: Vec<u16> = Vec::new();
    let mut i: usize = 0;
    while i < lines.len()
        invariant
            i <= lines@.len(),
            program@.len() == i,
            forall|j: int| 0 <= j < i ==> #[trigger] program@[j] < 0x8000,
            forall|j: int|
                0 <= j < i ==> line_result(tokens(#[trigger] lines@[j]@)) == Ok::<u16, LineFault>(
                    program@[j],
                ),
        decreases lines@.len() - i,
    {
        match assemble_line(i + 1, lines[i].as_str()) {
            Err(e) => {
                assert(forall|j: int| 0 <= j < i ==> line_ok(#[trigger] lines@[j]@));
                assert(!line_ok(lines@[i as int]@));
                return Err(e);
            },
            Ok(w) => {
                proof {
                    lemma_line_word_valid(tokens(lines@[i as int]@));
                }
                program.push(w);
            },
        }
        i = i + 1;
    }
    assert(forall|j: int| 0 <= j < lines@.len() ==> line_ok(#[trigger] lines@[j]@));
    Ok(program)
}

} // verus!
