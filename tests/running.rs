use emulator::assembler::assembler;
use emulator::codec::hlt;
use emulator::machine::{Emulator, ExecError};

fn machine(src: &[&str]) -> Emulator {
    let lines: Vec<String> = src.iter().map(|s| s.to_string()).collect();
    Emulator::new(assembler(&lines).unwrap())
}

fn run_ok(src: &[&str]) -> Emulator {
    let mut emu = machine(src);
    assert_eq!(emu.run(10_000), Ok(()));
    assert!(emu.is_halted());
    emu
}

#[test]
fn fresh_machine_is_cleared() {
    let emu = Emulator::new(vec![hlt()]);
    for i in 0..8 {
        assert_eq!(emu.register(i), 0);
    }
    for a in 0..256 {
        assert_eq!(emu.data_at(a), 0);
    }
    assert_eq!(emu.pc(), 0);
    assert_eq!(emu.flag(), 0);
    assert!(!emu.is_halted());
}

#[test]
fn end_to_end_store() {
    let emu = run_ok(&["ldh reg0 0", "ldl reg0 5", "st reg0 10", "hlt"]);
    assert_eq!(emu.data_at(10), 5);
    assert_eq!(emu.register(0), 5);
    assert_eq!(emu.pc(), 3);
    assert_eq!(emu.ir(), hlt());
}

#[test]
fn add_wraps_around() {
    let emu = run_ok(&["ldh reg0 255", "ldl reg0 255", "ldl reg1 1", "add reg0 reg1", "hlt"]);
    assert_eq!(emu.register(0), 0x0000);
    assert_eq!(emu.register(1), 1);
}

#[test]
fn sub_wraps_around() {
    let emu = run_ok(&["ldl reg1 1", "sub reg0 reg1", "hlt"]);
    assert_eq!(emu.register(0), 0xffff);
}

#[test]
fn shift_right_arith_keeps_the_sign_bit() {
    let emu = run_ok(&["ldh reg0 128", "mov reg1 reg0", "sra reg0", "sr reg1", "hlt"]);
    assert_eq!(emu.register(0), 0xc000);
    assert_eq!(emu.register(1), 0x4000);
    let emu = run_ok(&["ldl reg0 6", "sra reg0", "hlt"]);
    assert_eq!(emu.register(0), 3);
}

#[test]
fn shift_left_drops_the_top_bit() {
    let emu = run_ok(&["ldh reg0 128", "ldl reg0 1", "sl reg0", "hlt"]);
    assert_eq!(emu.register(0), 0x0002);
}

#[test]
fn load_low_and_high_keep_the_other_byte() {
    let emu = run_ok(&["ldh reg2 18", "ldl reg2 52", "ldl reg2 255", "hlt"]);
    assert_eq!(emu.register(2), 0x12ff);
    let emu = run_ok(&["ldl reg2 52", "ldh reg2 18", "ldh reg2 1", "hlt"]);
    assert_eq!(emu.register(2), 0x0134);
}

#[test]
fn and_or_move() {
    let emu = run_ok(&[
        "ldl reg0 12",
        "ldl reg1 10",
        "mov reg2 reg0",
        "and reg2 reg1",
        "mov reg3 reg0",
        "or reg3 reg1",
        "hlt",
    ]);
    assert_eq!(emu.register(2), 8);
    assert_eq!(emu.register(3), 14);
    assert_eq!(emu.register(0), 12);
}

#[test]
fn load_reads_data_memory() {
    let emu = run_ok(&["ldl reg0 42", "st reg0 255", "ld reg5 255", "ld reg6 3", "hlt"]);
    assert_eq!(emu.register(5), 42);
    assert_eq!(emu.register(6), 0);
    assert_eq!(emu.data_at(255), 42);
}

#[test]
fn compare_sets_and_clears_the_flag() {
    let emu = run_ok(&["cmp reg0 reg1", "hlt"]);
    assert_eq!(emu.flag(), 1);
    let emu = run_ok(&["cmp reg0 reg1", "ldl reg1 1", "cmp reg0 reg1", "hlt"]);
    assert_eq!(emu.flag(), 0);
}

#[test]
fn taken_conditional_jump_skips_an_instruction() {
    let emu = run_ok(&[
        "ldl reg0 1",
        "ldl reg1 1",
        "cmp reg0 reg1",
        "je 5",
        "ldl reg0 99",
        "st reg0 0",
        "hlt",
    ]);
    assert_eq!(emu.register(0), 1);
    assert_eq!(emu.data_at(0), 1);
}

#[test]
fn untaken_conditional_jump_falls_through() {
    let emu = run_ok(&[
        "ldl reg0 1",
        "ldl reg1 2",
        "cmp reg0 reg1",
        "je 5",
        "ldl reg0 99",
        "st reg0 0",
        "hlt",
    ]);
    assert_eq!(emu.data_at(0), 99);
}

#[test]
fn jump_lands_exactly_on_its_address() {
    let emu = run_ok(&["jmp 2", "ldl reg0 9", "ldl reg1 7", "hlt"]);
    assert_eq!(emu.register(0), 0);
    assert_eq!(emu.register(1), 7);
}

#[test]
fn countdown_loop_runs_to_completion() {
    // reg0 counts down from 5; reg2 counts the iterations.
    let emu = run_ok(&[
        "ldl reg0 5",
        "ldl reg1 1",
        "ldl reg3 0",
        "sub reg0 reg1",
        "add reg2 reg1",
        "cmp reg0 reg3",
        "je 8",
        "jmp 3",
        "st reg2 64",
        "hlt",
    ]);
    assert_eq!(emu.data_at(64), 5);
    assert_eq!(emu.register(0), 0);
}

#[test]
fn runaway_loop_hits_the_step_limit() {
    let mut emu = machine(&["ldl reg0 1", "jmp 0"]);
    assert_eq!(emu.run(1000), Err(ExecError::StepLimit));
    assert!(!emu.is_halted());
    assert_eq!(emu.run(0), Err(ExecError::StepLimit));
}

#[test]
fn step_budget_is_exact() {
    let mut emu = machine(&["ldl reg0 1", "ldl reg1 2", "hlt"]);
    assert_eq!(emu.run(2), Err(ExecError::StepLimit));
    assert_eq!(emu.register(1), 2);
    assert_eq!(emu.run(1), Ok(()));
    assert!(emu.is_halted());
    assert_eq!(emu.run(0), Ok(()));
}

#[test]
fn running_off_the_program_is_an_error() {
    let mut emu = machine(&["ldl reg0 1"]);
    assert_eq!(emu.run(100), Err(ExecError::PcOutOfRange { pc: 1 }));
    assert_eq!(emu.register(0), 1);
    let mut emu = machine(&["jmp 200"]);
    assert_eq!(emu.run(100), Err(ExecError::PcOutOfRange { pc: 200 }));
}

#[test]
fn undefined_opcode_is_an_error() {
    let mut emu = Emulator::new(vec![0x8000, hlt()]);
    assert_eq!(emu.run(100), Err(ExecError::BadOpcode { pc: 0, opcode: 16 }));
    assert_eq!(emu.pc(), 0);
    let mut emu = Emulator::new(vec![hlt()]);
    assert_eq!(emu.step(), Ok(()));
    assert!(emu.is_halted());
}
