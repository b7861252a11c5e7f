use vstd::prelude::*;
use crate::instruction::{Opcode, opcode_of_byte};

verus! {

/// How many registers the machine has.
pub const NUM_REGISTERS: usize = 32;

/// A fatal condition met while executing an instruction. The instruction that
/// meets it has no effect: the machine stays as it was before it.
#[derive(Debug, Clone, Copy, PartialEq, Eq, Structural)]
pub enum VmError {
    /// The buffer ends before the bytes that the instruction reads.
    TruncatedInstruction,
    /// An operand names a register outside 0 to 31.
    InvalidRegister { index: u8 },
    /// A division by a register that holds zero.
    DivisionByZero,
    /// The exact result of an arithmetic instruction is not a signed 32-bit value.
    ArithmeticOverflow,
    /// A jump to a negative offset, or past what an offset can hold.
    InvalidJump,
}

/// The abstract state of the machine.
pub struct VmState {
    pub registers: Seq<i32>,
    pub pc: nat,
    pub program: Seq<u8>,
    pub remainder: u32,
    pub equal_flag: bool,
}

/// The execution engine: registers, program counter, byte-code buffer, the
/// remainder of the last division and the flag of the last comparison.
pub struct VM {
    registers: [i32; 32],
    pc: usize,
    program: Vec<u8>,
    remainder: u32,
    equal_flag: bool,
}

impl View for VM {
    type V = VmState;

    closed spec fn view(&self) -> VmState {
        VmState {
            registers: self.registers@,
            pc: self.pc as nat,
            program: self.program@,
            remainder: self.remainder,
            equal_flag: self.equal_flag,
        }
    }
}

/// The state in which a new machine starts.
pub open spec fn initial_state() -> VmState {
    VmState {
        registers: Seq::new(32, |i: int| 0i32),
        pc: 0,
        program: Seq::empty(),
        remainder: 0,
        equal_flag: false,
    }
}

/// The state that a machine's view can take: exactly 32 registers.
pub open spec fn well_formed(m: VmState) -> bool {
    m.registers.len() == NUM_REGISTERS
}

/// The byte `k` places after the start of the instruction at the program counter.
pub open spec fn operand(m: VmState, k: int) -> u8 {
    m.program[m.pc + k]
}

/// How many bytes an instruction reads: the opcode byte, then its operands and
/// padding. A taken conditional jump reads no padding.
pub open spec fn width(op: Opcode, flag: bool) -> nat {
    match op {
        Opcode::HLT | Opcode::IGL => 1,
        Opcode::JMP | Opcode::JMPF | Opcode::JMPB => 2,
        Opcode::JEQ => if flag { 2 } else { 4 },
        _ => 4,
    }
}

/// The value fits in a signed 32-bit integer.
pub open spec fn is_i32(v: int) -> bool {
    i32::MIN <= v <= i32::MAX
}

/// The absolute value.
pub open spec fn abs(v: int) -> int {
    if v < 0 { -v } else { v }
}

/// Division truncating toward zero.
pub open spec fn trunc_div(x: int, y: int) -> int {
    let q = abs(x) / abs(y);
    if (x < 0) == (y < 0) { q } else { -q }
}

/// The remainder that goes with `trunc_div`: it has the sign of the dividend.
pub open spec fn trunc_rem(x: int, y: int) -> int {
    let r = abs(x) % abs(y);
    if x < 0 { -r } else { r }
}

/// The value an arithmetic opcode computes from two register values.
pub open spec fn arith_value(op: Opcode, x: i32, y: i32) -> Result<i32, VmError> {
    let v: int = match op {
        Opcode::ADD => x + y,
        Opcode::SUB => x - y,
        Opcode::MUL => x * y,
        _ => trunc_div(x as int, y as int),
    };
    if op == Opcode::DIV && y == 0 {
        Err(VmError::DivisionByZero)
    } else if !is_i32(v) {
        Err(VmError::ArithmeticOverflow)
    } else {
        Ok(v as i32)
    }
}

/// The flag a comparison opcode computes from two register values.
pub open spec fn compare_value(op: Opcode, x: i32, y: i32) -> bool {
    match op {
        Opcode::EQ => x == y,
        Opcode::NEQ => x != y,
        Opcode::GT => x > y,
        Opcode::LT => x < y,
        Opcode::GTQ => x >= y,
        _ => x <= y,
    }
}

/// The opcodes that compute into a register.
pub open spec fn is_arith(op: Opcode) -> bool {
    op == Opcode::ADD || op == Opcode::SUB || op == Opcode::MUL || op == Opcode::DIV
}

/// The opcodes that set the flag.
pub open spec fn is_compare(op: Opcode) -> bool {
    op == Opcode::EQ || op == Opcode::NEQ || op == Opcode::GT || op == Opcode::LT
        || op == Opcode::GTQ || op == Opcode::LTQ
}

/// The unconditional jumps.
pub open spec fn is_jump(op: Opcode) -> bool {
    op == Opcode::JMP || op == Opcode::JMPF || op == Opcode::JMPB
}

/// The first of the given operand bytes that names no register.
pub open spec fn bad_register(indices: Seq<u8>) -> Option<u8>
    decreases indices.len(),
{
    if indices.len() == 0 {
        None
    } else if indices[0] >= NUM_REGISTERS {
        Some(indices[0])
    } else {
        bad_register(indices.drop_first())
    }
}

/// The state with only the program counter changed.
pub open spec fn with_pc(m: VmState, pc: nat) -> VmState {
    VmState { pc, ..m }
}

/// LOAD: the register named by the first operand takes the big-endian 16-bit
/// value of the next two.
pub open spec fn load_step(m: VmState) -> (VmState, Result<bool, VmError>) {
    let r = operand(m, 1);
    let v = operand(m, 2) as int * 256 + operand(m, 3) as int;
    if r >= NUM_REGISTERS {
        (m, Err(VmError::InvalidRegister { index: r }))
    } else {
        (VmState { registers: m.registers.update(r as int, v as i32), pc: m.pc + 4, ..m }, Ok(false))
    }
}

/// ADD, SUB, MUL, DIV: the third operand's register takes the result of the
/// first two; DIV also keeps the remainder, as its 32-bit pattern.
pub open spec fn arith_step(m: VmState, op: Opcode) -> (VmState, Result<bool, VmError>) {
    let (a, b, d) = (operand(m, 1), operand(m, 2), operand(m, 3));
    match bad_register(seq![a, b, d]) {
        Some(index) => (m, Err(VmError::InvalidRegister { index })),
        None => {
            let (x, y) = (m.registers[a as int], m.registers[b as int]);
            match arith_value(op, x, y) {
                Err(e) => (m, Err(e)),
                Ok(v) => (
                    VmState {
                        registers: m.registers.update(d as int, v),
                        pc: m.pc + 4,
                        remainder: if op == Opcode::DIV {
                            trunc_rem(x as int, y as int) as u32
                        } else {
                            m.remainder
                        },
                        ..m
                    },
                    Ok(false),
                ),
            }
        },
    }
}

/// EQ, NEQ, GT, LT, GTQ, LTQ: the flag takes the comparison of the first two
/// operands' registers; the third byte is padding.
pub open spec fn compare_step(m: VmState, op: Opcode) -> (VmState, Result<bool, VmError>) {
    let (a, b) = (operand(m, 1), operand(m, 2));
    match bad_register(seq![a, b]) {
        Some(index) => (m, Err(VmError::InvalidRegister { index })),
        None => (
            VmState {
                equal_flag: compare_value(op, m.registers[a as int], m.registers[b as int]),
                pc: m.pc + 4,
                ..m
            },
            Ok(false),
        ),
    }
}

/// The program counter that a jump by `v` leads to, from the offset `after`
/// that follows its operand.
pub open spec fn jump_target(op: Opcode, after: int, v: int) -> Option<nat> {
    let target = match op {
        Opcode::JMP => v,
        Opcode::JMPF => after + v,
        _ => after - v,
    };
    if v < 0 || target < 0 || target > usize::MAX {
        None
    } else {
        Some(target as nat)
    }
}

/// JMP, JMPF, JMPB: absolute, forward and backward jumps by the value of the
/// operand's register.
pub open spec fn jump_step(m: VmState, op: Opcode) -> (VmState, Result<bool, VmError>) {
    let r = operand(m, 1);
    if r >= NUM_REGISTERS {
        (m, Err(VmError::InvalidRegister { index: r }))
    } else {
        match jump_target(op, m.pc + 2int, m.registers[r as int] as int) {
            None => (m, Err(VmError::InvalidJump)),
            Some(pc) => (with_pc(m, pc), Ok(false)),
        }
    }
}

/// JEQ: with the flag set, jump to the value of the operand's register; else
/// step over the two padding bytes.
pub open spec fn jeq_step(m: VmState) -> (VmState, Result<bool, VmError>) {
    let r = operand(m, 1);
    if r >= NUM_REGISTERS {
        (m, Err(VmError::InvalidRegister { index: r }))
    } else if !m.equal_flag {
        (with_pc(m, m.pc + 4), Ok(false))
    } else {
        match jump_target(Opcode::JMP, m.pc + 2int, m.registers[r as int] as int) {
            None => (m, Err(VmError::InvalidJump)),
            Some(pc) => (with_pc(m, pc), Ok(false)),
        }
    }
}

/// One instruction: the state after it, and whether the machine halted
/// (`Ok(true)`), goes on (`Ok(false)`) or met a fatal condition. At or past the
/// end of the buffer nothing is decoded and the machine halts.
pub open spec fn step(m: VmState) -> (VmState, Result<bool, VmError>) {
    if m.pc >= m.program.len() {
        (m, Ok(true))
    } else {
        let op = opcode_of_byte(m.program[m.pc as int]);
        if m.pc + width(op, m.equal_flag) > m.program.len() {
            (m, Err(VmError::TruncatedInstruction))
        } else if op == Opcode::HLT || op == Opcode::IGL {
            (with_pc(m, m.pc + 1), Ok(true))
        } else if op == Opcode::LOAD {
            load_step(m)
        } else if is_arith(op) {
            arith_step(m, op)
        } else if is_compare(op) {
            compare_step(m, op)
        } else if is_jump(op) {
            jump_step(m, op)
        } else {
            jeq_step(m)
        }
    }
}

/// At most `fuel` instructions, stopping at a halt or a fatal condition.
/// `Ok(false)` says that the machine neither halted nor failed within them.
pub open spec fn run_steps(m: VmState, fuel: nat) -> (VmState, Result<bool, VmError>)
    decreases fuel,
{
    if fuel == 0 {
        (m, Ok(false))
    } else {
        let (next, r) = step(m);
        match r {
            Ok(false) => run_steps(next, (fuel - 1) as nat),
            _ => (next, r),
        }
    }
}

/// The abstract state of every machine has 32 registers.
pub proof fn lemma_well_formed(vm: &VM)
    ensures
        well_formed(vm@),
{
    assert(vm.registers@.len() == 32);
}

/// The width of an instruction, as `width` gives it.
fn instruction_width(op: Opcode, flag: bool) -> (r: usize)
    ensures
        r == width(op, flag),
{
    match op {
        Opcode::HLT | Opcode::IGL => 1,
        Opcode::JMP | Opcode::JMPF | Opcode::JMPB => 2,
        Opcode::JEQ => if flag { 2 } else { 4 },
        _ => 4,
    }
}

/// The result of an arithmetic opcode, as `arith_value` gives it.
fn arith(op: Opcode, x: i32, y: i32) -> (r: Result<i32, VmError>)
    requires
        is_arith(op),
    ensures
        r == arith_value(op, x, y),
{
    let v = match op {
        Opcode::ADD => x.checked_add(y),
        Opcode::SUB => x.checked_sub(y),
        Opcode::MUL => x.checked_mul(y),
        _ => {
            if y == 0 {
                return Err(VmError::DivisionByZero);
            }
            x.checked_div(y)
        },
    };
    match v {
        Some(v) => Ok(v),
        None => Err(VmError::ArithmeticOverflow),
    }
}

/// The result of a comparison opcode, as `compare_value` gives it.
fn compare(op: Opcode, x: i32, y: i32) -> (r: bool)
    requires
        is_compare(op),
    ensures
        r == compare_value(op, x, y),
{
    match op {
        Opcode::EQ => x == y,
        Opcode::NEQ => x != y,
        Opcode::GT => x > y,
        Opcode::LT => x < y,
        Opcode::GTQ => x >= y,
        _ => x <= y,
    }
}

/// The target of a jump, as `jump_target` gives it.
fn target_of(op: Opcode, after: usize, v: i32) -> (r: Option<usize>)
    ensures
        r == (match jump_target(op, after as int, v as int) {
            Some(t) => Some(t as usize),
            None => None::<usize>,
        }),
{
    if v < 0 {
        return None;
    }
    let delta = v as usize;
    match op {
        Opcode::JMP => Some(delta),
        Opcode::JMPF => after.checked_add(delta),
        _ => if delta > after {
            None
        } else {
            Some(after - delta)
        },
    }
}

impl VM {
    pub fn new() -> (r: VM)
        ensures
            r@ == initial_state(),
    {
        let r = VM { registers: [0; 32], pc: 0, program: Vec::new(), remainder: 0, equal_flag: false };
        assert(r@.registers =~= initial_state().registers);
        assert(r@.program =~= initial_state().program);
        r
    }

    /// A machine in the initial state but with 5 in register 0 and 10 in
    /// register 1.
    pub fn get_test_vm() -> (r: VM)
        ensures
            r@ == (VmState {
                registers: initial_state().registers.update(0, 5).update(1, 10),
                ..initial_state()
            }),
    {
        let mut test_vm = VM::new();
        test_vm.registers[0] = 5;
        test_vm.registers[1] = 10;
        test_vm
    }

    /// Reads the opcode byte at the program counter and moves past it.
    fn decode_opcode(&mut self) -> (op: Opcode)
        requires
            old(self).pc < old(self).program.len(),
        ensures
            op == opcode_of_byte(old(self).program@[old(self).pc as int]),
            final(self)@ == with_pc(old(self)@, old(self)@.pc + 1),
    {
        let opcode = Opcode::from(self.program[self.pc]);
        self.pc += 1;
        opcode
    }

    /// Reads one operand byte and moves past it.
    fn next_8_bits(&mut self) -> (r: u8)
        requires
            old(self).pc < old(self).program.len(),
        ensures
            r == old(self).program@[old(self).pc as int],
            final(self)@ == with_pc(old(self)@, old(self)@.pc + 1),
    {
        let result = self.program[self.pc];
        self.pc += 1;
        result
    }

    /// Reads a big-endian 16-bit operand and moves past its two bytes.
    fn next_16_bits(&mut self) -> (r: u16)
        requires
            old(self).pc + 1 < old(self).program.len(),
        ensures
            r == old(self).program@[old(self).pc as int] as int * 256
                + old(self).program@[old(self).pc + 1] as int,
            final(self)@ == with_pc(old(self)@, old(self)@.pc + 2),
    {
        let hi = self.program[self.pc];
        let lo = self.program[self.pc + 1];
        let result = ((hi as u16) << 8u16) | lo as u16;
        assert(result == hi as int * 256 + lo as int) by (bit_vector)
            requires
                result == ((hi as u16) << 8u16) | lo as u16,
        ;
        self.pc += 2;
        result
    }

    /// Executes one instruction and reports whether the machine halted. At or
    /// past the end of the buffer nothing is decoded and the machine halts. A
    /// fatal condition leaves the machine as it was.
    pub fn execute_instruction(&mut self) -> (r: Result<bool, VmError>)
        ensures
            (final(self)@, r) == step(old(self)@),
    {
        proof {
            lemma_well_formed(self);
        }
        if self.pc >= self.program.len() {
            return Ok(true);
        }
        let start = self.pc;
        let opcode = self.decode_opcode();
        if self.program.len() - start < instruction_width(opcode, self.equal_flag) {
            self.pc = start;
            return Err(VmError::TruncatedInstruction);
        }
        let r = match opcode {
            Opcode::HLT | Opcode::IGL => {
                return Ok(true);
            },
            Opcode::LOAD => self.execute_load(start),
            Opcode::ADD | Opcode::SUB | Opcode::MUL | Opcode::DIV => self.execute_arith(opcode, start),
            Opcode::EQ | Opcode::NEQ | Opcode::GT | Opcode::LT | Opcode::GTQ | Opcode::LTQ => {
                self.execute_compare(opcode, start)
            },
            Opcode::JMP | Opcode::JMPF | Opcode::JMPB => self.execute_jump(opcode, start),
            Opcode::JEQ => self.execute_jeq(start),
        };
        if r.is_err() {
            self.pc = start;
        }
        r
    }

    /// LOAD, its opcode byte at `start` already read.
    fn execute_load(&mut self, start: usize) -> (r: Result<bool, VmError>)
        requires
            old(self).pc == start + 1,
            start + 4 <= old(self).program.len(),
        ensures
            r == load_step(with_pc(old(self)@, start as nat)).1,
            r is Ok ==> final(self)@ == load_step(with_pc(old(self)@, start as nat)).0,
            r is Err ==> with_pc(final(self)@, start as nat) == with_pc(old(self)@, start as nat),
    {
        let ghost m = with_pc(self@, start as nat);
        let register = self.next_8_bits();
        let number = self.next_16_bits();
        if register as usize >= NUM_REGISTERS {
            Err(VmError::InvalidRegister { index: register })
        } else {
            self.registers[register as usize] = number as i32;
            assert(self@.registers =~= load_step(m).0.registers);
            Ok(false)
        }
    }

    /// ADD, SUB, MUL, DIV, the opcode byte at `start` already read.
    fn execute_arith(&mut self, op: Opcode, start: usize) -> (r: Result<bool, VmError>)
        requires
            is_arith(op),
            old(self).pc == start + 1,
            start + 4 <= old(self).program.len(),
        ensures
            r == arith_step(with_pc(old(self)@, start as nat), op).1,
            r is Ok ==> final(self)@ == arith_step(with_pc(old(self)@, start as nat), op).0,
            r is Err ==> with_pc(final(self)@, start as nat) == with_pc(old(self)@, start as nat),
    {
        let ghost m = with_pc(self@, start as nat);
        proof {
            lemma_well_formed(self);
            reveal_with_fuel(bad_register, 4);
        }
        let a = self.next_8_bits();
        let b = self.next_8_bits();
        let d = self.next_8_bits();
        let x = match self.register(a) {
            Err(e) => return Err(e),
            Ok(x) => x,
        };
        let y = match self.register(b) {
            Err(e) => return Err(e),
            Ok(y) => y,
        };
        if d as usize >= NUM_REGISTERS {
            return Err(VmError::InvalidRegister { index: d });
        }
        let v = match arith(op, x, y) {
            Err(e) => return Err(e),
            Ok(v) => v,
        };
        self.registers[d as usize] = v;
        if op == Opcode::DIV {
            let rem = x.checked_rem(y);
            proof {
                assert(y != 0);
                if x == i32::MIN && y == -1 {
                    assert(abs(x as int) / abs(y as int) == 0x8000_0000) by (nonlinear_arith)
                        requires
                            abs(x as int) == 0x8000_0000,
                            abs(y as int) == 1,
                    ;
                }
                let (ax, ay) = (abs(x as int), abs(y as int));
                assert(0 <= ax % ay < ay) by (nonlinear_arith)
                    requires
                        ay > 0,
                        ax >= 0,
                ;
            }
            assert(rem == Some(trunc_rem(x as int, y as int) as i32));
            match rem {
                Some(rem) => {
                    self.remainder = #[verifier::truncate] (rem as u32);
                },
                None => {},
            }
        }
        assert(self@.registers =~= arith_step(m, op).0.registers);
        Ok(false)
    }

    /// EQ, NEQ, GT, LT, GTQ, LTQ, the opcode byte at `start` already read.
    fn execute_compare(&mut self, op: Opcode, start: usize) -> (r: Result<bool, VmError>)
        requires
            is_compare(op),
            old(self).pc == start + 1,
            start + 4 <= old(self).program.len(),
        ensures
            r == compare_step(with_pc(old(self)@, start as nat), op).1,
            r is Ok ==> final(self)@ == compare_step(with_pc(old(self)@, start as nat), op).0,
            r is Err ==> with_pc(final(self)@, start as nat) == with_pc(old(self)@, start as nat),
    {
        proof {
            lemma_well_formed(self);
            reveal_with_fuel(bad_register, 3);
        }
        let a = self.next_8_bits();
        let b = self.next_8_bits();
        self.next_8_bits();
        let x = match self.register(a) {
            Err(e) => return Err(e),
            Ok(x) => x,
        };
        let y = match self.register(b) {
            Err(e) => return Err(e),
            Ok(y) => y,
        };
        self.equal_flag = compare(op, x, y);
        Ok(false)
    }

    /// JMP, JMPF, JMPB, the opcode byte at `start` already read.
    fn execute_jump(&mut self, op: Opcode, start: usize) -> (r: Result<bool, VmError>)
        requires
            is_jump(op),
            old(self).pc == start + 1,
            start + 2 <= old(self).program.len(),
        ensures
            r == jump_step(with_pc(old(self)@, start as nat), op).1,
            r is Ok ==> final(self)@ == jump_step(with_pc(old(self)@, start as nat), op).0,
            r is Err ==> with_pc(final(self)@, start as nat) == with_pc(old(self)@, start as nat),
    {
        proof {
            lemma_well_formed(self);
        }
        let register = self.next_8_bits();
        let v = match self.register(register) {
            Err(e) => return Err(e),
            Ok(v) => v,
        };
        match target_of(op, self.pc, v) {
            None => Err(VmError::InvalidJump),
            Some(target) => {
                self.pc = target;
                Ok(false)
            },
        }
    }

    /// JEQ, the opcode byte at `start` already read.
    fn execute_jeq(&mut self, start: usize) -> (r: Result<bool, VmError>)
        requires
            old(self).pc == start + 1,
            start + width(Opcode::JEQ, old(self).equal_flag) <= old(self).program.len(),
        ensures
            r == jeq_step(with_pc(old(self)@, start as nat)).1,
            r is Ok ==> final(self)@ == jeq_step(with_pc(old(self)@, start as nat)).0,
            r is Err ==> with_pc(final(self)@, start as nat) == with_pc(old(self)@, start as nat),
    {
        proof {
            lemma_well_formed(self);
        }
        let register = self.next_8_bits();
        let target = match self.register(register) {
            Err(e) => return Err(e),
            Ok(v) => v,
        };
        if self.equal_flag {
            match target_of(Opcode::JMP, self.pc, target) {
                None => Err(VmError::InvalidJump),
                Some(pc) => {
                    // jumps; the padding bytes are not read
                    self.pc = pc;
                    Ok(false)
                },
            }
        } else {
            // steps over the two padding bytes
            self.next_16_bits();
            Ok(false)
        }
    }

    /// Executes one instruction.
    pub fn run_once(&mut self) -> (r: Result<bool, VmError>)
        ensures
            (final(self)@, r) == step(old(self)@),
    {
        self.execute_instruction()
    }

    /// Executes instructions until the machine halts or meets a fatal
    /// condition, at most `max_steps` of them. `Ok(true)` says that it halted,
    /// `Ok(false)` that the budget ran out first.
    pub fn run(&mut self, max_steps: u64) -> (r: Result<bool, VmError>)
        ensures
            (final(self)@, r) == run_steps(old(self)@, max_steps as nat),
    {
        let mut left: u64 = max_steps;
        while left > 0
            invariant
                run_steps(self@, left as nat) == run_steps(old(self)@, max_steps as nat),
            decreases left,
        {
            let is_done = self.execute_instruction();
            left = left - 1;
            match is_done {
                Ok(false) => {},
                _ => {
                    return is_done;
                },
            }
        }
        Ok(false)
    }

    /// The value of a register, or the error for an index outside 0 to 31.
    pub fn register(&self, index: u8) -> (r: Result<i32, VmError>)
        ensures
            index < NUM_REGISTERS ==> r == Ok::<i32, VmError>(self@.registers[index as int]),
            index >= NUM_REGISTERS ==> r == Err::<i32, VmError>(VmError::InvalidRegister { index }),
    {
        if index as usize >= NUM_REGISTERS {
            Err(VmError::InvalidRegister { index })
        } else {
            Ok(self.registers[index as usize])
        }
    }

    /// Sets a register, or fails for an index outside 0 to 31 and leaves the
    /// machine as it was.
    pub fn set_register(&mut self, index: u8, value: i32) -> (r: Result<(), VmError>)
        ensures
            index < NUM_REGISTERS ==> r is Ok && final(self)@ == (VmState {
                registers: old(self)@.registers.update(index as int, value),
                ..old(self)@
            }),
            index >= NUM_REGISTERS ==> r == Err::<(), VmError>(VmError::InvalidRegister { index })
                && final(self)@ == old(self)@,
    {
        if index as usize >= NUM_REGISTERS {
            Err(VmError::InvalidRegister { index })
        } else {
            self.registers[index as usize] = value;
            proof {
                assert(self@.registers =~= old(self)@.registers.update(index as int, value));
            }
            Ok(())
        }
    }

    /// All 32 registers.
    pub fn registers(&self) -> (r: &[i32; 32])
        ensures
            r@ == self@.registers,
    {
        &self.registers
    }

    /// The program counter.
    pub fn pc(&self) -> (r: usize)
        ensures
            r == self@.pc,
    {
        self.pc
    }

    /// The byte-code buffer.
    pub fn program(&self) -> (r: &Vec<u8>)
        ensures
            r@ == self@.program,
    {
        &self.program
    }

    /// The remainder of the last division.
    pub fn remainder(&self) -> (r: u32)
        ensures
            r == self@.remainder,
    {
        self.remainder
    }

    /// The flag of the last comparison.
    pub fn equal_flag(&self) -> (r: bool)
        ensures
            r == self@.equal_flag,
    {
        self.equal_flag
    }

    /// Sets the comparison flag.
    pub fn set_equal_flag(&mut self, flag: bool)
        ensures
            final(self)@ == (VmState { equal_flag: flag, ..old(self)@ }),
    {
        self.equal_flag = flag;
    }

    /// Appends one byte to the buffer.
    pub fn add_byte(&mut self, b: u8)
        ensures
            final(self)@ == (VmState { program: old(self)@.program.push(b), ..old(self)@ }),
    {
        self.program.push(b);
    }

    /// Replaces the buffer; the program counter and the rest stay.
    pub fn set_program(&mut self, program: Vec<u8>)
        ensures
            final(self)@ == (VmState { program: program@, ..old(self)@ }),
    {
        self.program = program;
    }
}

} // verus!
