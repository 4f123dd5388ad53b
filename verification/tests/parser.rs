use vondel::assembler::lexer::Lexer;
use vondel::assembler::parser::{Parser, Program};
use vondel::assembler::sections::{
    BranchOp, DataKind, DataWrited, DoubleOperandOpcode, ImmediateOrLabel, Instruction,
    NoOperandOpcode, Sections, SingleOperandOpcode, TextSegment, Value,
};
use vondel::assembler::tokens::Register;

fn create_program(input: &str) -> Program {
    let mut l = Lexer::new(input);
    let toks = l.get_deez_toks_w_ctx();
    let mut p = Parser::new(toks);
    p.get_deez_program()
}

#[test]
fn test_data_writted() {
    let input = r"
.data
    dividend:   .word 10    # Dividend
    divisor:    .word 3     # Divisor
    quotient:   .word 0     # Quotient
    remainder:  .word 0     # Remainder
    address:    .byte 77    # Address
        ";

    let program = create_program(input);

    let expected = Sections::DataSection(vec![
        Sections::new_data_writed(DataKind::Word(10), String::from("dividend")),
        Sections::new_data_writed(DataKind::Word(3), String::from("divisor")),
        Sections::new_data_writed(DataKind::Word(0), String::from("quotient")),
        Sections::new_data_writed(DataKind::Word(0), String::from("remainder")),
        Sections::new_data_writed(DataKind::Byte(77), String::from("address")),
    ]);

    assert_eq!(program.sections.len(), 1);
    assert_eq!(program.errors.len(), 0);
    assert_eq!(program.sections[0], expected);
}

#[test]
fn parse_global_section() {
    let input = r"
.text
.global _start
.global main
.global tubias
        ";

    let program = create_program(input);

    let expected = Sections::TextSection(vec![
        TextSegment::new_global_section(String::from("_start")),
        TextSegment::new_global_section(String::from("main")),
        TextSegment::new_global_section(String::from("tubias")),
    ]);

    assert_eq!(program.sections.len(), 1);
    assert_eq!(program.errors.len(), 0);
    assert_eq!(program.sections[0], expected);
}

#[test]
fn parse_double_operand_rr_instruction() {
    let input = r"
.text
main:
    add t0 <- t1, t2
    sub t1, t2, t3, s0 <- t1, t2
    mul t1,t2,t3,s0,s1,s2,s3,s4,a0,a1,a2 <- a0, a1
    and t0 <- a0, a1
    or t0 <- a0, a1

.text
error:
    add t0 <- t1

.text
error2:
    add <- t1, t2
        ";

    let program = create_program(input);

    let expected = Sections::TextSection(vec![TextSegment::new_labeled_section(
        String::from("main"),
        vec![
            Instruction::new_double_operand_instruction(
                DoubleOperandOpcode::Add,
                vec![Register::T0],
                Register::T1,
                Value::Reg(Register::T2),
            ),
            Instruction::new_double_operand_instruction(
                DoubleOperandOpcode::Sub,
                vec![Register::T1, Register::T2, Register::T3, Register::S0],
                Register::T1,
                Value::Reg(Register::T2),
            ),
            Instruction::new_double_operand_instruction(
                DoubleOperandOpcode::Mul,
                vec![Register::T1, Register::T2, Register::T3, Register::S0, Register::S1, Register::S2, Register::S3, Register::S4, Register::A0, Register::A1, Register::A2],
                Register::A0,
                Value::Reg(Register::A1),
            ),
            Instruction::new_double_operand_instruction(
                DoubleOperandOpcode::And,
                vec![Register::T0],
                Register::A0,
                Value::Reg(Register::A1),
            ),
            Instruction::new_double_operand_instruction(
                DoubleOperandOpcode::Or,
                vec![Register::T0],
                Register::A0,
                Value::Reg(Register::A1),
            ),
        ],
    )]);
    assert_eq!(program.sections.len(), 1);
    assert_eq!(program.sections[0], expected);
}

#[test]
fn parse_double_operand_reg_imm_instruction() {
    let input = r"
.text
main:
    addi t0 <- t1, 8
    andi t1,t2,t3,s0,s1,s2,s3,s4,a0,a1,a2 <- a0, 200
    ori t0 <- t1, 8
    subi t0 <- t1, 8

.text
error:
    addi t0 <- t1, t2

.text
error2:
    addi <- t1, 7
        ";

    let program = create_program(input);

    let expected = Sections::TextSection(vec![TextSegment::new_labeled_section(
        String::from("main"),
        vec![
            Instruction::new_double_operand_instruction(
                DoubleOperandOpcode::Addi,
                vec![Register::T0],
                Register::T1,
                Value::Immediate(8),
            ),
            Instruction::new_double_operand_instruction(
                DoubleOperandOpcode::Andi,
                vec![Register::T1, Register::T2, Register::T3, Register::S0, Register::S1, Register::S2, Register::S3, Register::S4, Register::A0, Register::A1, Register::A2],
                Register::A0,
                Value::Immediate(200),
            ),
            Instruction::new_double_operand_instruction(
                DoubleOperandOpcode::Ori,
                vec![Register::T0],
                Register::T1,
                Value::Immediate(8),
            ),
            Instruction::new_double_operand_instruction(
                DoubleOperandOpcode::Subi,
                vec![Register::T0],
                Register::T1,
                Value::Immediate(8),
            ),
        ],
    )]);
    assert_eq!(program.sections.len(), 1);
    assert_eq!(program.sections[0], expected);
}

#[test]
fn parse_single_operand_rr_instruction() {
    let input = r"
.text
main:
    not t0, t2 <- t1
    sll t1, t2, t3, s0 <- t1
    sra t1 <- t1
    sla t1 <- t1
    mov t3, t2 <- t1
        ";

    let program = create_program(input);

    let expected = Sections::TextSection(vec![TextSegment::new_labeled_section(
        String::from("main"),
        vec![
            Instruction::new_single_operand_instruction(
                SingleOperandOpcode::Not,
                vec![Register::T0, Register::T2],
                Value::Reg(Register::T1),
            ),
            Instruction::new_single_operand_instruction(
                SingleOperandOpcode::Sll,
                vec![Register::T1, Register::T2, Register::T3, Register::S0],
                Value::Reg(Register::T1),
            ),
            Instruction::new_single_operand_instruction(
                SingleOperandOpcode::Sra,
                vec![Register::T1],
                Value::Reg(Register::T1),
            ),
            Instruction::new_single_operand_instruction(
                SingleOperandOpcode::Sla,
                vec![Register::T1],
                Value::Reg(Register::T1),
            ),
            Instruction::new_single_operand_instruction(
                SingleOperandOpcode::Mov,
                vec![Register::T3, Register::T2],
                Value::Reg(Register::T1),
            ),
        ],
    )]);
    assert_eq!(program.sections.len(), 1);
    assert_eq!(program.errors.len(), 0);
    assert_eq!(program.sections[0], expected);
}

#[test]
fn parse_single_operand_imm_instruction() {
    let input = r"
.text
main:
    lui t0, t2, t1, ra <- 200
        ";

    let program = create_program(input);

    let expected = Sections::TextSection(vec![TextSegment::new_labeled_section(
        String::from("main"),
        vec![Instruction::new_single_operand_instruction(
            SingleOperandOpcode::Lui,
            vec![Register::T0, Register::T2, Register::T1, Register::Ra],
            Value::Immediate(200),
        )],
    )]);
    assert_eq!(program.sections.len(), 1);
    assert_eq!(program.errors.len(), 0);
    assert_eq!(program.sections[0], expected);
}

#[test]
fn parse_branch_instruction() {
    let input = r"
.text
main:
    beq t0, t1, main
    bne t0, t1, kkk
    blt t0, t1, tubias
    bgt t0, t1, gepeto
        ";

    let program = create_program(input);

    let expected = Sections::TextSection(vec![TextSegment::new_labeled_section(
        String::from("main"),
        vec![
            Instruction::new_branch_instruction(BranchOp::Beq, Register::T0, Register::T1, String::from("main")),
            Instruction::new_branch_instruction(BranchOp::Bne, Register::T0, Register::T1, String::from("kkk")),
            Instruction::new_branch_instruction(BranchOp::Blt, Register::T0, Register::T1, String::from("tubias")),
            Instruction::new_branch_instruction(BranchOp::Bgt, Register::T0, Register::T1, String::from("gepeto")),
        ],
    )]);
    assert_eq!(program.sections.len(), 1);
    assert_eq!(program.errors.len(), 0);
    assert_eq!(program.sections[0], expected);
}

#[test]
fn parse_no_operand_instruction() {
    let input = r"
.text
main:
    halt
    nop
        ";

    let program = create_program(input);

    let expected = Sections::TextSection(vec![TextSegment::new_labeled_section(
        String::from("main"),
        vec![
            Instruction::new_no_operand_instruction(NoOperandOpcode::Halt),
            Instruction::new_no_operand_instruction(NoOperandOpcode::Nop),
        ],
    )]);
    assert_eq!(program.sections.len(), 1);
    assert_eq!(program.errors.len(), 0);
    assert_eq!(program.sections[0], expected);
}

#[test]
fn parse_jal() {
    let input = r"
.text
main:
    jal tubias
        ";

    let program = create_program(input);

    let expected = Sections::TextSection(vec![TextSegment::new_labeled_section(
        String::from("main"),
        vec![Instruction::new_jal_instruction(String::from("tubias"))],
    )]);
    assert_eq!(program.sections.len(), 1);
    assert_eq!(program.errors.len(), 0);
    assert_eq!(program.sections[0], expected);
}

#[test]
fn parse_write() {
    let input = r"
.text
main:
    write 15 <- a1
    write label <- a2
";
    let program = create_program(input);

    let expected = Sections::TextSection(vec![TextSegment::new_labeled_section(
        String::from("main"),
        vec![
            Instruction::new_write_instruction(ImmediateOrLabel::Immediate(15), Register::A1),
            Instruction::new_write_instruction(
                ImmediateOrLabel::Label(String::from("label")),
                Register::A2,
            ),
        ],
    )]);
    assert_eq!(program.sections.len(), 1);
    assert_eq!(program.errors.len(), 0);
    assert_eq!(program.sections[0], expected);
}

#[test]
fn parse_read() {
    let input = r"
.text
main:
    read a1, a2, a3 <- 77
    read a1, a2, a3 <- label
";
    let program = create_program(input);

    let expected = Sections::TextSection(vec![TextSegment::new_labeled_section(
        String::from("main"),
        vec![
            Instruction::new_read_instruction(
                ImmediateOrLabel::Immediate(77),
                vec![Register::A1, Register::A2, Register::A3],
            ),
            Instruction::new_read_instruction(
                ImmediateOrLabel::Label(String::from("label")),
                vec![Register::A1, Register::A2, Register::A3],
            ),
        ],
    )]);
    assert_eq!(program.sections.len(), 1);
    assert_eq!(program.errors.len(), 0);
    assert_eq!(program.sections[0], expected);
}

#[test]
fn parse_text_and_data() {
    let input = r"
.data
    test: .word 123
    test2: .byte 77

.text
main:
    read a1, a2, a3 <- 77
    read a1, a2, a3 <- label
";
    let program = create_program(input);

    let data = Sections::DataSection(vec![
        DataWrited { label: String::from("test"), kind: DataKind::Word(123) },
        DataWrited { label: String::from("test2"), kind: DataKind::Byte(77) },
    ]);

    let text = Sections::TextSection(vec![TextSegment::new_labeled_section(
        String::from("main"),
        vec![
            Instruction::new_read_instruction(
                ImmediateOrLabel::Immediate(77),
                vec![Register::A1, Register::A2, Register::A3],
            ),
            Instruction::new_read_instruction(
                ImmediateOrLabel::Label(String::from("label")),
                vec![Register::A1, Register::A2, Register::A3],
            ),
        ],
    )]);
    assert_eq!(program.sections.len(), 2);
    assert_eq!(program.errors.len(), 0);
    assert_eq!(program.sections[0], data);
    assert_eq!(program.sections[1], text);
}
