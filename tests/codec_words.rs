use emulator::codec::{
    add, address, and, cmp, data, hlt, je, jmp, ld, ldh, ldl, mov, op_code, or, reg1, reg2, sl,
    sr, sra, st, sub, ADD, AND, CMP, HLT, JE, JMP, LD, LDH, LDL, MOV, OR, SL, SR, SRA, ST, SUB,
};

#[test]
fn round_trip_move_reg3_reg5() {
    let w = mov(3, 5);
    assert_eq!(op_code(w), MOV);
    assert_eq!(reg1(w), 3);
    assert_eq!(reg2(w), 5);
    assert_eq!(w, 0b0000_0011_1010_0000);
}

#[test]
fn round_trip_two_register_shapes() {
    for (w, op) in [
        (add(1, 2), ADD),
        (sub(1, 2), SUB),
        (and(1, 2), AND),
        (or(1, 2), OR),
        (cmp(1, 2), CMP),
    ] {
        assert_eq!(op_code(w), op);
        assert_eq!(reg1(w), 1);
        assert_eq!(reg2(w), 2);
        assert!(w < 0x8000);
    }
    assert_eq!(add(1, 2), 2048 + 256 + 64);
}

#[test]
fn round_trip_one_register_shapes() {
    for (w, op) in [(sl(7), SL), (sr(7), SR), (sra(7), SRA)] {
        assert_eq!(op_code(w), op);
        assert_eq!(reg1(w), 7);
        assert_eq!(reg2(w), 0);
    }
    assert_eq!(sra(7), 7 * 2048 + 7 * 256);
}

#[test]
fn round_trip_register_value_shapes() {
    for (w, op) in [(ldl(2, 200), LDL), (ldh(2, 200), LDH), (ld(2, 200), LD), (st(2, 200), ST)] {
        assert_eq!(op_code(w), op);
        assert_eq!(reg1(w), 2);
        assert_eq!(data(w), 200);
        assert_eq!(address(w), 200);
    }
    assert_eq!(st(2, 200), 14 * 2048 + 2 * 256 + 200);
}

#[test]
fn round_trip_address_shapes() {
    for (w, op) in [(je(77), JE), (jmp(255), JMP)] {
        assert_eq!(op_code(w), op);
    }
    assert_eq!(address(je(77)), 77);
    assert_eq!(address(jmp(255)), 255);
    assert_eq!(jmp(255), 12 * 2048 + 255);
}

#[test]
fn halt_word() {
    assert_eq!(hlt(), 0x7800);
    assert_eq!(op_code(hlt()), HLT);
}

#[test]
fn decoding_reads_bit_fifteen_into_the_opcode() {
    assert_eq!(op_code(0x8000), 16);
    assert_eq!(op_code(0xffff), 31);
    assert_eq!(reg1(0xffff), 7);
    assert_eq!(reg2(0xffff), 7);
    assert_eq!(data(0xffff), 255);
}
