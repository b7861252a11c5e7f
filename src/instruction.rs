use vstd::prelude::*;

verus! {

/// The operations of the machine. Each has a canonical byte; `IGL` stands for
/// every byte that names no operation.
#[derive(Debug, Clone, Copy, PartialEq, Eq, Structural)]
pub enum Opcode {
    LOAD,
    ADD,
    SUB,
    MUL,
    DIV,
    HLT,
    JMP,
    JMPF,
    JMPB,
    EQ,
    NEQ,
    GT,
    LT,
    GTQ,
    LTQ,
    JEQ,
    IGL,
}

/// The opcode that a byte decodes to: 0 to 15 name an operation, any other
/// byte is illegal.
pub open spec fn opcode_of_byte(v: u8) -> Opcode {
    if v == 0 {
        Opcode::HLT
    } else if v == 1 {
        Opcode::LOAD
    } else if v == 2 {
        Opcode::ADD
    } else if v == 3 {
        Opcode::SUB
    } else if v == 4 {
        Opcode::MUL
    } else if v == 5 {
        Opcode::DIV
    } else if v == 6 {
        Opcode::JMP
    } else if v == 7 {
        Opcode::JMPF
    } else if v == 8 {
        Opcode::JMPB
    } else if v == 9 {
        Opcode::EQ
    } else if v == 10 {
        Opcode::NEQ
    } else if v == 11 {
        Opcode::GT
    } else if v == 12 {
        Opcode::LT
    } else if v == 13 {
        Opcode::GTQ
    } else if v == 14 {
        Opcode::LTQ
    } else if v == 15 {
        Opcode::JEQ
    } else {
        Opcode::IGL
    }
}

/// The canonical byte of an opcode; the illegal opcode encodes as 255.
pub open spec fn byte_of_opcode(op: Opcode) -> u8 {
    match op {
        Opcode::HLT => 0,
        Opcode::LOAD => 1,
        Opcode::ADD => 2,
        Opcode::SUB => 3,
        Opcode::MUL => 4,
        Opcode::DIV => 5,
        Opcode::JMP => 6,
        Opcode::JMPF => 7,
        Opcode::JMPB => 8,
        Opcode::EQ => 9,
        Opcode::NEQ => 10,
        Opcode::GT => 11,
        Opcode::LT => 12,
        Opcode::GTQ => 13,
        Opcode::LTQ => 14,
        Opcode::JEQ => 15,
        Opcode::IGL => 255,
    }
}

impl From<u8> for Opcode {
    fn from(v: u8) -> (r: Opcode)
        ensures
            r == opcode_of_byte(v),
    {
        match v {
            0 => Opcode::HLT,
            1 => Opcode::LOAD,
            2 => Opcode::ADD,
            3 => Opcode::SUB,
            4 => Opcode::MUL,
            5 => Opcode::DIV,
            6 => Opcode::JMP,
            7 => Opcode::JMPF,
            8 => Opcode::JMPB,
            9 => Opcode::EQ,
            10 => Opcode::NEQ,
            11 => Opcode::GT,
            12 => Opcode::LT,
            13 => Opcode::GTQ,
            14 => Opcode::LTQ,
            15 => Opcode::JEQ,
            _ => Opcode::IGL,
        }
    }
}

impl vstd::std_specs::convert::FromSpecImpl<u8> for Opcode {
    open spec fn obeys_from_spec() -> bool {
        true
    }

    open spec fn from_spec(v: u8) -> Opcode {
        opcode_of_byte(v)
    }
}

impl From<Opcode> for u8 {
    fn from(v: Opcode) -> (r: u8)
        ensures
            r == byte_of_opcode(v),
    {
        match v {
            Opcode::HLT => 0,
            Opcode::LOAD => 1,
            Opcode::ADD => 2,
            Opcode::SUB => 3,
            Opcode::MUL => 4,
            Opcode::DIV => 5,
            Opcode::JMP => 6,
            Opcode::JMPF => 7,
            Opcode::JMPB => 8,
            Opcode::EQ => 9,
            Opcode::NEQ => 10,
            Opcode::GT => 11,
            Opcode::LT => 12,
            Opcode::GTQ => 13,
            Opcode::LTQ => 14,
            Opcode::JEQ => 15,
            Opcode::IGL => 255,
        }
    }
}

impl vstd::std_specs::convert::FromSpecImpl<Opcode> for u8 {
    open spec fn obeys_from_spec() -> bool {
        true
    }

    open spec fn from_spec(v: Opcode) -> u8 {
        byte_of_opcode(v)
    }
}

/// Encoding an opcode and decoding the byte gives the opcode back.
pub proof fn lemma_opcode_byte_round_trip(op: Opcode)
    ensures
        opcode_of_byte(byte_of_opcode(op)) == op,
{
}

/// Decoding a byte that names an operation and encoding the result gives the
/// byte back; every other byte decodes to the illegal opcode.
pub proof fn lemma_byte_opcode_round_trip(v: u8)
    ensures
        v <= 15 ==> byte_of_opcode(opcode_of_byte(v)) == v,
        v > 15 ==> opcode_of_byte(v) == Opcode::IGL,
{
}

/// A decoded instruction.
#[derive(Debug, PartialEq, Eq, Structural)]
pub struct Instruction {
    opcode: Opcode,
}

impl Instruction {
    pub fn new(opcode: Opcode) -> (r: Instruction)
        ensures
            r.spec_opcode() == opcode,
    {
        Instruction { opcode: opcode }
    }

    /// The opcode the instruction carries.
    pub closed spec fn spec_opcode(&self) -> Opcode {
        self.opcode
    }

    /// The instruction's opcode.
    pub fn opcode(&self) -> (r: Opcode)
        ensures
            r == self.spec_opcode(),
    {
        self.opcode
    }
}

} // verus!
