use vstd::prelude::*;
use crate::instruction::{Opcode, byte_of_opcode};
use crate::vm::{
    NUM_REGISTERS, VmError, bad_register, VmState, is_arith, is_compare, is_i32, operand, step, trunc_div, trunc_rem,
    well_formed, with_pc,
};

verus! {

/// For every register index 0 to 31 and every 16-bit value, a LOAD of the
/// value into the register goes on, leaves the value there as a signed 32-bit
/// integer, and moves the program counter four bytes on.
pub proof fn lemma_load_reads_back(m: VmState, i: u8, v: u16)
    requires
        well_formed(m),
        i < NUM_REGISTERS,
        m.pc + 4 <= m.program.len(),
        m.program[m.pc as int] == byte_of_opcode(Opcode::LOAD),
        operand(m, 1) == i,
        operand(m, 2) as int == v as int / 256,
        operand(m, 3) as int == v as int % 256,
    ensures
        step(m).1 == Ok::<bool, VmError>(false),
        step(m).0.registers[i as int] as int == v as int,
        step(m).0.pc == m.pc + 4,
{
}

/// ADD, SUB, MUL and DIV on valid registers: the destination register takes
/// the exact integer result, and DIV keeps the remainder, which for a
/// non-negative dividend and a positive divisor is the plain `%`. A result
/// that does not fit in 32 bits, or a division by zero, is an error that
/// changes nothing.
pub proof fn lemma_arith_exact(m: VmState, op: Opcode)
    requires
        well_formed(m),
        is_arith(op),
        m.pc + 4 <= m.program.len(),
        m.program[m.pc as int] == byte_of_opcode(op),
        operand(m, 1) < NUM_REGISTERS,
        operand(m, 2) < NUM_REGISTERS,
        operand(m, 3) < NUM_REGISTERS,
    ensures
        ({
            let (x, y) = (m.registers[operand(m, 1) as int], m.registers[operand(m, 2) as int]);
            let (s, r) = step(m);
            let exact: int = match op {
                Opcode::ADD => x + y,
                Opcode::SUB => x - y,
                Opcode::MUL => x * y,
                _ => trunc_div(x as int, y as int),
            };
            &&& op == Opcode::DIV && y == 0 ==> r == Err::<bool, VmError>(VmError::DivisionByZero)
                && s == m
            &&& !(op == Opcode::DIV && y == 0) && !is_i32(exact) ==> r == Err::<bool, VmError>(
                VmError::ArithmeticOverflow,
            ) && s == m
            &&& !(op == Opcode::DIV && y == 0) && is_i32(exact) ==> {
                &&& r == Ok::<bool, VmError>(false)
                &&& s.registers[operand(m, 3) as int] as int == exact
                &&& s.pc == m.pc + 4
                &&& op == Opcode::DIV ==> s.remainder == trunc_rem(x as int, y as int) as u32
                &&& op == Opcode::DIV && x >= 0 && y > 0 ==> s.registers[operand(m, 3) as int]
                    == x / y && s.remainder as int == x % y
                &&& op != Opcode::DIV ==> s.remainder == m.remainder
            }
        }),
{
    reveal_with_fuel(bad_register, 4);
    let (x, y) = (m.registers[operand(m, 1) as int], m.registers[operand(m, 2) as int]);
    if op == Opcode::DIV && x >= 0 && y > 0 {
        assert(0 <= x % y < y) by (nonlinear_arith)
            requires
                y > 0,
                x >= 0,
        ;
        assert(0 <= x / y <= x) by (nonlinear_arith)
            requires
                y > 0,
                x >= 0,
        ;
    }
}

/// JEQ with the flag set jumps to exactly the value of its register and reads
/// no padding; with the flag clear it moves the program counter four bytes on.
/// Neither touches the registers.
pub proof fn lemma_jeq(m: VmState)
    requires
        well_formed(m),
        m.pc + 2 <= m.program.len(),
        m.program[m.pc as int] == byte_of_opcode(Opcode::JEQ),
        operand(m, 1) < NUM_REGISTERS,
    ensures
        ({
            let v = m.registers[operand(m, 1) as int];
            let (s, r) = step(m);
            &&& m.equal_flag && v >= 0 ==> r == Ok::<bool, VmError>(false) && s.pc == v
            &&& m.equal_flag && v < 0 ==> r == Err::<bool, VmError>(VmError::InvalidJump) && s == m
            &&& !m.equal_flag && m.pc + 4 <= m.program.len() ==> r == Ok::<bool, VmError>(false)
                && s.pc == m.pc + 4
            &&& s.registers == m.registers
        }),
{
}

/// EQ, NEQ, GT, LT, GTQ and LTQ on valid registers move the program counter
/// exactly four bytes on whatever the outcome, set the flag to the comparison
/// of the two registers, and change nothing else.
pub proof fn lemma_compare(m: VmState, op: Opcode)
    requires
        well_formed(m),
        is_compare(op),
        m.pc + 4 <= m.program.len(),
        m.program[m.pc as int] == byte_of_opcode(op),
        operand(m, 1) < NUM_REGISTERS,
        operand(m, 2) < NUM_REGISTERS,
    ensures
        ({
            let (x, y) = (m.registers[operand(m, 1) as int], m.registers[operand(m, 2) as int]);
            let (s, r) = step(m);
            &&& r == Ok::<bool, VmError>(false)
            &&& s.pc == m.pc + 4
            &&& s.equal_flag == match op {
                Opcode::EQ => x == y,
                Opcode::NEQ => x != y,
                Opcode::GT => x > y,
                Opcode::LT => x < y,
                Opcode::GTQ => x >= y,
                _ => x <= y,
            }
            &&& s.registers == m.registers
            &&& s.remainder == m.remainder
            &&& s.program == m.program
        }),
{
    reveal_with_fuel(bad_register, 3);
}

/// With the program counter at or past the end of the buffer, a step halts
/// and changes nothing.
pub proof fn lemma_step_at_end(m: VmState)
    requires
        m.pc >= m.program.len(),
    ensures
        step(m) == (m, Ok::<bool, VmError>(true)),
{
}

/// An opcode byte above 15 halts exactly as HLT does: the program counter
/// moves past the byte and nothing else changes.
pub proof fn lemma_illegal_halts_like_hlt(m: VmState)
    requires
        m.pc < m.program.len(),
        m.program[m.pc as int] > 15 || m.program[m.pc as int] == byte_of_opcode(Opcode::HLT),
    ensures
        step(m) == (with_pc(m, m.pc + 1), Ok::<bool, VmError>(true)),
        step(m).0.registers == m.registers,
{
}

/// An instruction that meets a fatal condition leaves the machine as it was.
pub proof fn lemma_error_changes_nothing(m: VmState)
    ensures
        step(m).1 is Err ==> step(m).0 == m,
{
}

} // verus!
