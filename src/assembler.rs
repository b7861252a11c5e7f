use vstd::prelude::*;
use crate::instruction::Opcode;

verus! {

/// A token of assembly text: an operation or a register operand.
#[derive(Debug, PartialEq, Eq, Structural)]
pub enum Token {
    Op { code: Opcode },
    Register { reg_num: u8 },
}

} // verus!
