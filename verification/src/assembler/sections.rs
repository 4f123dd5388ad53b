//! The assembler's typed AST: sections of text segments and data
//! definitions, and the instruction shapes the lowering understands.

use crate::assembler::tokens::Register;
use vstd::prelude::*;

verus! {

/// Mnemonics that take a destination list, a register and a second
/// register-or-immediate. `Mul` is the microcode multiply macro; `Mul2`
/// the single-microinstruction hardware multiply.
#[derive(Debug, PartialEq, Eq, Structural, Clone, Copy)]
pub enum DoubleOperandOpcode {
    Add,
    Sub,
    Mul,
    Mul2,
    Muli,
    Div,
    Divi,
    Mod,
    Modi,
    And,
    Or,
    Xor,
    Xori,
    Addi,
    Andi,
    Ori,
    Subi,
}

/// Mnemonics that take a destination list and one source value.
#[derive(Debug, PartialEq, Eq, Structural, Clone, Copy)]
pub enum SingleOperandOpcode {
    Lui,
    Not,
    Sll,
    Sra,
    Sla,
    Mov,
}

/// Mnemonics without operands.
#[derive(Debug, PartialEq, Eq, Structural, Clone, Copy)]
pub enum NoOperandOpcode {
    Halt,
    Nop,
}

/// The conditional branches.
#[derive(Debug, PartialEq, Eq, Structural, Clone, Copy)]
pub enum BranchOp {
    Beq,
    Bne,
    Blt,
    Bgt,
}

/// A source operand: a register, an 8-bit immediate, or a data label
/// that resolves to an 8-bit immediate.
#[derive(Debug, PartialEq, Clone)]
pub enum Value {
    Immediate(u8),
    Reg(Register),
    Label(String),
}

/// A memory address operand: an 8-bit immediate or a data label.
#[derive(Debug, PartialEq, Clone)]
pub enum ImmediateOrLabel {
    Immediate(u8),
    Label(String),
}

#[derive(Debug, PartialEq, Clone)]
pub struct DoubleOperandInstruction {
    pub opcode: DoubleOperandOpcode,
    pub rd: Vec<Register>,
    pub rs1: Register,
    pub rs2: Value,
}

#[derive(Debug, PartialEq, Clone)]
pub struct SingleOperandInstruction {
    pub opcode: SingleOperandOpcode,
    pub rd: Vec<Register>,
    pub rs1: Value,
}

#[derive(Debug, PartialEq, Clone)]
pub struct BranchInstruction {
    pub opcode: BranchOp,
    pub rs1: Register,
    pub rs2: Register,
    pub label: String,
}

/// One instruction of the assembly language.
#[derive(Debug, PartialEq, Clone)]
pub enum Instruction {
    DoubleOperand(DoubleOperandInstruction),
    SingleOperand(SingleOperandInstruction),
    Branch(BranchInstruction),
    NoOperand(NoOperandOpcode),
    WriteInstruction(ImmediateOrLabel, Register),
    ReadInstruction(ImmediateOrLabel, Vec<Register>),
    Jal(String),
}

impl Instruction {
    pub fn new_double_operand_instruction(
        opcode: DoubleOperandOpcode,
        rd: Vec<Register>,
        rs1: Register,
        rs2: Value,
    ) -> (r: Instruction)
        ensures
            r == Instruction::DoubleOperand(DoubleOperandInstruction { opcode, rd, rs1, rs2 }),
    {
        Instruction::DoubleOperand(DoubleOperandInstruction { opcode, rd, rs1, rs2 })
    }

    pub fn new_single_operand_instruction(
        opcode: SingleOperandOpcode,
        rd: Vec<Register>,
        rs1: Value,
    ) -> (r: Instruction)
        ensures
            r == Instruction::SingleOperand(SingleOperandInstruction { opcode, rd, rs1 }),
    {
        Instruction::SingleOperand(SingleOperandInstruction { opcode, rd, rs1 })
    }

    pub fn new_no_operand_instruction(opcode: NoOperandOpcode) -> (r: Instruction)
        ensures
            r == Instruction::NoOperand(opcode),
    {
        Instruction::NoOperand(opcode)
    }

    pub fn new_jal_instruction(label: String) -> (r: Instruction)
        ensures
            r == Instruction::Jal(label),
    {
        Instruction::Jal(label)
    }

    pub fn new_write_instruction(immediate_or_label: ImmediateOrLabel, rd: Register) -> (r:
        Instruction)
        ensures
            r == Instruction::WriteInstruction(immediate_or_label, rd),
    {
        Instruction::WriteInstruction(immediate_or_label, rd)
    }

    pub fn new_read_instruction(immediate_or_label: ImmediateOrLabel, rd: Vec<Register>) -> (r:
        Instruction)
        ensures
            r == Instruction::ReadInstruction(immediate_or_label, rd),
    {
        Instruction::ReadInstruction(immediate_or_label, rd)
    }

    pub fn new_branch_instruction(
        opcode: BranchOp,
        rs1: Register,
        rs2: Register,
        label: String,
    ) -> (r: Instruction)
        ensures
            r == Instruction::Branch(BranchInstruction { opcode, rs1, rs2, label }),
    {
        Instruction::Branch(BranchInstruction { opcode, rs1, rs2, label })
    }
}

/// What a data definition binds its label to: an 8-bit constant or a
/// 32-bit word placed in RAM.
#[derive(Debug, PartialEq, Clone)]
pub enum DataKind {
    Byte(u8),
    Word(i32),
}

/// One definition of the data section.
#[derive(Debug, PartialEq, Clone)]
pub struct DataWrited {
    pub kind: DataKind,
    pub label: String,
}

/// One piece of a text section: a labeled block of instructions or a
/// global declaration.
#[derive(Debug, PartialEq, Clone)]
pub enum TextSegment {
    LabeledSection { label: String, instructions: Vec<Instruction> },
    GlobalSection { label: String },
}

impl TextSegment {
    pub fn new_labeled_section(label: String, instructions: Vec<Instruction>) -> (r: TextSegment)
        ensures
            r == (TextSegment::LabeledSection { label, instructions }),
    {
        TextSegment::LabeledSection { label, instructions }
    }

    pub fn new_global_section(label: String) -> (r: TextSegment)
        ensures
            r == (TextSegment::GlobalSection { label }),
    {
        TextSegment::GlobalSection { label }
    }
}

/// A section of the program: text or data.
#[derive(Debug, PartialEq, Clone)]
pub enum Sections {
    TextSection(Vec<TextSegment>),
    DataSection(Vec<DataWrited>),
}

impl Sections {
    pub fn new_data_section(data: Vec<DataWrited>) -> (r: Sections)
        ensures
            r == Sections::DataSection(data),
    {
        Sections::DataSection(data)
    }

    pub fn new_text_section(text: Vec<TextSegment>) -> (r: Sections)
        ensures
            r == Sections::TextSection(text),
    {
        Sections::TextSection(text)
    }

    pub fn new_data_writed(kind: DataKind, label: String) -> (r: DataWrited)
        ensures
            r == (DataWrited { kind, label }),
    {
        DataWrited { kind, label }
    }
}

} // verus!
