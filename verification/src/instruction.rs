//! The instruction set: a closed enumeration of opcodes and the
//! bidirectional mapping between an opcode and its one-byte encoding.

use vstd::prelude::*;

verus! {

/// The operations the engine recognizes.
///
/// `STDO` is a reserved encoding (254) with no behaviour yet; `PAD` is
/// one-byte padding; `IGL` stands for every byte value that is not a
/// recognized encoding and is itself a defined value, not a decode failure.
#[derive(Debug, PartialEq, Eq, Structural, Clone, Copy)]
pub enum OpCode {
    LOAD,
    ADD,
    SUB,
    MUL,
    DIV,
    JMP,
    JMPF,
    JMPB,
    EQ,
    NEQ,
    LT,
    GT,
    LTE,
    GTE,
    JEQ,
    STDO,
    HLT,
    PAD,
    IGL,
}

/// The byte-to-opcode half of the encoding table.
pub open spec fn opcode_of_byte(v: u8) -> OpCode {
    match v {
        0u8 => OpCode::HLT,
        10u8 => OpCode::LOAD,
        11u8 => OpCode::ADD,
        12u8 => OpCode::SUB,
        13u8 => OpCode::MUL,
        14u8 => OpCode::DIV,
        15u8 => OpCode::JMP,
        16u8 => OpCode::JMPF,
        17u8 => OpCode::JMPB,
        18u8 => OpCode::EQ,
        19u8 => OpCode::NEQ,
        20u8 => OpCode::LT,
        21u8 => OpCode::GT,
        22u8 => OpCode::LTE,
        23u8 => OpCode::GTE,
        24u8 => OpCode::JEQ,
        254u8 => OpCode::STDO,
        255u8 => OpCode::PAD,
        _ => OpCode::IGL,
    }
}

/// The opcode-to-byte half of the encoding table.
///
/// `IGL` has no canonical byte; it falls back to 0 here, but it must
/// never be round-tripped (see `lemma_encode_decode`).
pub open spec fn byte_of_opcode(c: OpCode) -> u8 {
    match c {
        OpCode::HLT => 0u8,
        OpCode::LOAD => 10u8,
        OpCode::ADD => 11u8,
        OpCode::SUB => 12u8,
        OpCode::MUL => 13u8,
        OpCode::DIV => 14u8,
        OpCode::JMP => 15u8,
        OpCode::JMPF => 16u8,
        OpCode::JMPB => 17u8,
        OpCode::EQ => 18u8,
        OpCode::NEQ => 19u8,
        OpCode::LT => 20u8,
        OpCode::GT => 21u8,
        OpCode::LTE => 22u8,
        OpCode::GTE => 23u8,
        OpCode::JEQ => 24u8,
        OpCode::STDO => 254u8,
        OpCode::PAD => 255u8,
        OpCode::IGL => 0u8,
    }
}

/// Whether a byte value is one of the recognized encodings.
pub open spec fn is_defined_opcode_byte(v: u8) -> bool {
    opcode_of_byte(v) != OpCode::IGL
}

impl From<u8> for OpCode {
    fn from(v: u8) -> (r: OpCode) {
        match v {
            0 => OpCode::HLT,
            10 => OpCode::LOAD,
            11 => OpCode::ADD,
            12 => OpCode::SUB,
            13 => OpCode::MUL,
            14 => OpCode::DIV,
            15 => OpCode::JMP,
            16 => OpCode::JMPF,
            17 => OpCode::JMPB,
            18 => OpCode::EQ,
            19 => OpCode::NEQ,
            20 => OpCode::LT,
            21 => OpCode::GT,
            22 => OpCode::LTE,
            23 => OpCode::GTE,
            24 => OpCode::JEQ,
            254 => OpCode::STDO,
            255 => OpCode::PAD,
            _ => OpCode::IGL,
        }
    }
}

impl vstd::std_specs::convert::FromSpecImpl<u8> for OpCode {
    open spec fn obeys_from_spec() -> bool {
        true
    }

    open spec fn from_spec(v: u8) -> OpCode {
        opcode_of_byte(v)
    }
}

impl From<OpCode> for u8 {
    fn from(c: OpCode) -> (r: u8) {
        match c {
            OpCode::HLT => 0,
            OpCode::LOAD => 10,
            OpCode::ADD => 11,
            OpCode::SUB => 12,
            OpCode::MUL => 13,
            OpCode::DIV => 14,
            OpCode::JMP => 15,
            OpCode::JMPF => 16,
            OpCode::JMPB => 17,
            OpCode::EQ => 18,
            OpCode::NEQ => 19,
            OpCode::LT => 20,
            OpCode::GT => 21,
            OpCode::LTE => 22,
            OpCode::GTE => 23,
            OpCode::JEQ => 24,
            OpCode::STDO => 254,
            OpCode::PAD => 255,
            OpCode::IGL => 0,
        }
    }
}

impl vstd::std_specs::convert::FromSpecImpl<OpCode> for u8 {
    open spec fn obeys_from_spec() -> bool {
        true
    }

    open spec fn from_spec(c: OpCode) -> u8 {
        byte_of_opcode(c)
    }
}

/// Law: for every defined opcode, encoding it and decoding the byte back
/// yields the same opcode, so `byte_of_opcode` is a right inverse of
/// `opcode_of_byte` on the whole recognized set. `IGL` is excluded: it has
/// no canonical byte.
pub proof fn lemma_encode_decode(c: OpCode)
    requires
        c != OpCode::IGL,
    ensures
        opcode_of_byte(byte_of_opcode(c)) == c,
{
}

/// Law: every byte outside the recognized encodings decodes to `IGL`.
pub proof fn lemma_unrecognized_byte_decodes_illegal(v: u8)
    requires
        !is_defined_opcode_byte(v),
    ensures
        opcode_of_byte(v) == OpCode::IGL,
{
}

/// A decoded instruction: the opcode tag alone. Operand bytes are consumed
/// directly from the program buffer during execution and never persist.
pub struct Instruction {
    pub opcode: OpCode,
}

impl Instruction {
    pub fn new(opcode: OpCode) -> (r: Instruction)
        ensures
            r.opcode == opcode,
    {
        Instruction { opcode }
    }
}

} // verus!
