//! The register machine: eight 16-bit registers, a program bank of
//! instruction words, a 256-cell data bank and a comparison flag.
use vstd::prelude::*;

use crate::codec::{
    address, data, field_low, field_op, field_reg1, field_reg2, op_code, reg1, reg2, ADD, AND,
    CMP, HLT, JE, JMP, LD, LDH, LDL, MOV, OR, SL, SR, SRA, ST, SUB,
};

verus! {

/// Number of general-purpose registers.
pub const NUM_REGS: usize = 8;

/// Number of cells of the data bank.
pub const RAM_SIZE: usize = 256;

/// Why execution stopped before a halt instruction.
#[derive(Debug, Clone, Copy, PartialEq, Eq)]
pub enum ExecError {
    /// The word at `pc` has an opcode outside the sixteen defined ones.
    BadOpcode { pc: usize, opcode: u16 },
    /// The program counter points past the end of the program bank.
    PcOutOfRange { pc: usize },
    /// The step budget ran out before the machine halted.
    StepLimit,
}

/// The whole state of a machine.
pub ghost struct MachineState {
    pub regs: Seq<u16>,
    pub rom: Seq<u16>,
    pub ram: Seq<u16>,
    pub pc: nat,
    pub ir: u16,
    pub flag: u16,
    pub halted: bool,
}

impl MachineState {
    pub open spec fn wf(self) -> bool {
        &&& self.regs.len() == NUM_REGS
        &&& self.ram.len() == RAM_SIZE
        &&& self.rom.len() <= usize::MAX
        &&& self.pc <= usize::MAX
        &&& self.flag <= 1
    }

    /// The state with register `i` set to `v`.
    pub open spec fn with_reg(self, i: int, v: int) -> MachineState {
        MachineState { regs: self.regs.update(i, v as u16), ..self }
    }
}

/// A fresh machine on `program`: registers and data cleared, pc at 0.
pub open spec fn initial_state(program: Seq<u16>) -> MachineState {
    MachineState {
        regs: Seq::new(NUM_REGS as nat, |i: int| 0u16),
        rom: program,
        ram: Seq::new(RAM_SIZE as nat, |i: int| 0u16),
        pc: 0,
        ir: 0,
        flag: 0,
        halted: false,
    }
}

/// Logical shift right by one that keeps bit 15 as it was.
pub open spec fn shift_right_arith(a: int) -> int {
    a / 2 + if a >= 0x8000 { 0x8000int } else { 0 }
}

/// The effect of the word `w`, whose opcode is one of the sixteen, on `s`.
pub open spec fn exec_word(s: MachineState, w: u16) -> MachineState {
    let op = field_op(w as int);
    let r1 = field_reg1(w as int);
    let r2 = field_reg2(w as int);
    let low = field_low(w as int);
    let a = s.regs[r1] as int;
    let b = s.regs[r2] as int;
    let next = MachineState { pc: s.pc + 1, ir: w, ..s };
    if op == MOV {
        next.with_reg(r1, b)
    } else if op == ADD {
        next.with_reg(r1, (a + b) % 0x10000)
    } else if op == SUB {
        next.with_reg(r1, (a - b) % 0x10000)
    } else if op == AND {
        next.with_reg(r1, (s.regs[r1] & s.regs[r2]) as int)
    } else if op == OR {
        next.with_reg(r1, (s.regs[r1] | s.regs[r2]) as int)
    } else if op == SL {
        next.with_reg(r1, (a * 2) % 0x10000)
    } else if op == SR {
        next.with_reg(r1, a / 2)
    } else if op == SRA {
        next.with_reg(r1, shift_right_arith(a))
    } else if op == LDL {
        next.with_reg(r1, (a / 256) * 256 + low)
    } else if op == LDH {
        next.with_reg(r1, a % 256 + low * 256)
    } else if op == CMP {
        MachineState { flag: if a == b { 1u16 } else { 0u16 }, ..next }
    } else if op == JE {
        if s.flag == 1 {
            MachineState { pc: low as nat, ..next }
        } else {
            next
        }
    } else if op == JMP {
        MachineState { pc: low as nat, ..next }
    } else if op == LD {
        next.with_reg(r1, s.ram[low] as int)
    } else if op == ST {
        MachineState { ram: s.ram.update(low, s.regs[r1]), ..next }
    } else {
        MachineState { ir: w, halted: true, ..s }
    }
}

/// One fetch-decode-execute step of a running machine.
pub open spec fn step_spec(s: MachineState) -> Result<MachineState, ExecError> {
    if s.pc >= s.rom.len() {
        Err(ExecError::PcOutOfRange { pc: s.pc as usize })
    } else if field_op(s.rom[s.pc as int] as int) > HLT {
        Err(
            ExecError::BadOpcode {
                pc: s.pc as usize,
                opcode: field_op(s.rom[s.pc as int] as int) as u16,
            },
        )
    } else {
        Ok(exec_word(s, s.rom[s.pc as int]))
    }
}

/// Runs `s` for at most `fuel` steps: the state where it stopped, and the
/// error that stopped it, if it did not halt.
pub open spec fn run_spec(s: MachineState, fuel: nat) -> (MachineState, Option<ExecError>)
    decreases fuel,
{
    if s.halted {
        (s, None)
    } else if fuel == 0 {
        (s, Some(ExecError::StepLimit))
    } else {
        match step_spec(s) {
            Err(e) => (s, Some(e)),
            Ok(t) => run_spec(t, (fuel - 1) as nat),
        }
    }
}

pub struct Emulator {
    reg: Vec<u16>,
    rom: Vec<u16>,
    ram: Vec<u16>,
    pc: usize,
    ir: u16,
    flag: u16,
    halted: bool,
}

impl View for Emulator {
    type V = MachineState;

    closed spec fn view(&self) -> MachineState {
        MachineState {
            regs: self.reg@,
            rom: self.rom@,
            ram: self.ram@,
            pc: self.pc as nat,
            ir: self.ir,
            flag: self.flag,
            halted: self.halted,
        }
    }
}

impl Emulator {
    /// A machine loaded with `program`, ready to run from address 0.
    pub fn new(program: Vec<u16>) -> (r: Emulator)
        ensures
            r@ == initial_state(program@),
            r@.wf(),
    {
        assert(program@.len() == program.len());
        let r = Emulator {
            reg: vec![0u16; NUM_REGS],
            rom: program,
            ram: vec![0u16; RAM_SIZE],
            pc: 0,
            ir: 0,
            flag: 0,
            halted: false,
        };
        assert(r@.regs =~= initial_state(program@).regs);
        assert(r@.ram =~= initial_state(program@).ram);
        r
    }

    fn write_reg(&mut self, i: usize, v: u16)
        requires
            old(self)@.wf(),
            i < NUM_REGS,
        ensures
            final(self)@ == old(self)@.with_reg(i as int, v as int),
    {
        self.reg[i] = v;
    }

    /// Executes the instruction at the program counter.
    pub fn step(&mut self) -> (r: Result<(), ExecError>)
        requires
            old(self)@.wf(),
            !old(self)@.halted,
        ensures
            final(self)@.wf(),
            match step_spec(old(self)@) {
                Ok(t) => r is Ok && final(self)@ == t,
                Err(e) => r == Err::<(), ExecError>(e) && final(self)@ == old(self)@,
            },
    {
        if self.pc >= self.rom.len() {
            return Err(ExecError::PcOutOfRange { pc: self.pc });
        }
        let w = self.rom[self.pc];
        let op = op_code(w);
        if op > HLT {
            return Err(ExecError::BadOpcode { pc: self.pc, opcode: op });
        }
        let ghost s = self@;
        let r1 = reg1(w) as usize;
        let r2 = reg2(w) as usize;
        let a = self.reg[r1];
        let b = self.reg[r2];
        self.ir = w;
        if op == HLT {
            self.halted = true;
            return Ok(());
        }
        if op == MOV {
            self.write_reg(r1, b);
        } else if op == ADD {
            self.write_reg(r1, a.wrapping_add(b));
        } else if op == SUB {
            self.write_reg(r1, a.wrapping_sub(b));
        } else if op == AND {
            self.write_reg(r1, a & b);
        } else if op == OR {
            self.write_reg(r1, a | b);
        } else if op == SL {
            assert(a << 1 == (a * 2) % 0x10000) by (bit_vector);
            self.write_reg(r1, a << 1);
        } else if op == SR {
            assert(a >> 1 == a / 2) by (bit_vector);
            self.write_reg(r1, a >> 1);
        } else if op == SRA {
            assert((a >> 1) | (a & 0x8000) == a / 2 + if a >= 0x8000 { 0x8000u16 } else { 0 })
                by (bit_vector);
            self.write_reg(r1, (a >> 1) | (a & 0x8000));
        } else if op == LDL {
            let v = data(w);
            assert((a & 0xff00) | v == (a / 256) * 256 + v) by (bit_vector)
                requires
                    v < 256,
            ;
            self.write_reg(r1, (a & 0xff00) | v);
        } else if op == LDH {
            let v = data(w);
            assert((a & 0x00ff) | (v << 8) == a % 256 + v * 256) by (bit_vector)
                requires
                    v < 256,
            ;
            self.write_reg(r1, (a & 0x00ff) | (v << 8));
        } else if op == CMP {
            if a == b {
                self.flag = 1;
            } else {
                self.flag = 0;
            }
        } else if op == JE {
            if self.flag == 1 {
                self.pc = address(w) as usize;
                return Ok(());
            }
        } else if op == JMP {
            self.pc = address(w) as usize;
            return Ok(());
        } else if op == LD {
            let v = self.ram[address(w) as usize];
            self.write_reg(r1, v);
        } else {
            self.ram[address(w) as usize] = a;
        }
        self.pc = self.pc + 1;
        assert(self@ == exec_word(s, w));
        Ok(())
    }

    /// Runs until the machine halts, an instruction fails, or `max_steps`
    /// steps have been executed without reaching a halt.
    pub fn run(&mut self, max_steps: u64) -> (r: Result<(), ExecError>)
        requires
            old(self)@.wf(),
        ensures
            final(self)@.wf(),
            final(self)@ == run_spec(old(self)@, max_steps as nat).0,
            match run_spec(old(self)@, max_steps as nat).1 {
                None => r is Ok,
                Some(e) => r == Err::<(), ExecError>(e),
            },
    {
        let mut n: u64 = max_steps;
        while !self.halted
            invariant
                self@.wf(),
                run_spec(self@, n as nat) == run_spec(old(self)@, max_steps as nat),
            decreases n,
        {
            if n == 0 {
                return Err(ExecError::StepLimit);
            }
            match self.step() {
                Err(e) => {
                    return Err(e);
                },
                Ok(()) => {},
            }
            n = n - 1;
        }
        Ok(())
    }

    /// The contents of register `i`.
    pub fn register(&self, i: usize) -> (r: u16)
        requires
            self@.wf(),
            i < NUM_REGS,
        ensures
            r == self@.regs[i as int],
    {
        self.reg[i]
    }

    /// The contents of data cell `addr`.
    pub fn data_at(&self, addr: usize) -> (r: u16)
        requires
            self@.wf(),
            addr < RAM_SIZE,
        ensures
            r == self@.ram[addr as int],
    {
        self.ram[addr]
    }

    pub fn pc(&self) -> (r: usize)
        ensures
            r == self@.pc,
    {
        self.pc
    }

    pub fn flag(&self) -> (r: u16)
        ensures
            r == self@.flag,
    {
        self.flag
    }

    /// The last word fetched for execution.
    pub fn ir(&self) -> (r: u16)
        ensures
            r == self@.ir,
    {
        self.ir
    }

    pub fn is_halted(&self) -> (r: bool)
        ensures
            r == self@.halted,
    {
        self.halted
    }
}

/// The state reached by a run that halts in time.
pub open spec fn halts_within(s: MachineState, fuel: nat) -> bool {
    run_spec(s, fuel).1 is None
}

/// A running machine whose program holds no halt word never finishes a run
/// normally, whatever the step budget: the run ends in an error.
pub proof fn lemma_no_halt_never_finishes(s: MachineState, fuel: nat)
    requires
        !s.halted,
        forall|i: int| 0 <= i < s.rom.len() ==> field_op(s.rom[i] as int) != HLT,
    ensures
        !halts_within(s, fuel),
        !run_spec(s, fuel).0.halted,
    decreases fuel,
{
    if fuel > 0 {
        if let Ok(t) = step_spec(s) {
            assert(!t.halted);
            assert(t.rom == s.rom);
            lemma_no_halt_never_finishes(t, (fuel - 1) as nat);
        }
    }
}

/// A program whose words all leave bit 15 clear, as every assembled program
/// does, never stops on an undefined opcode.
pub proof fn lemma_valid_words_decode(s: MachineState)
    requires
        forall|i: int| 0 <= i < s.rom.len() ==> #[trigger] s.rom[i] < 0x8000,
    ensures
        !(step_spec(s) matches Err(ExecError::BadOpcode { .. })),
{
    if s.pc < s.rom.len() {
        assert(s.rom[s.pc as int] < 0x8000);
    }
}

} // verus!
