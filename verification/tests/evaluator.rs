use vondel::assembler::evaluator::{AsmEvaluator, CsState, Microinstruction};
use vondel::assembler::parser::Program;
use vondel::assembler::sections::{
    BranchOp, DataKind, DoubleOperandOpcode, ImmediateOrLabel, Instruction, NoOperandOpcode,
    Sections, SingleOperandOpcode, TextSegment, Value,
};
use vondel::assembler::tokens::Register;

#[test]
fn cbus_eval() {
    let regs = vec![
        Register::Mdr,
        Register::A3,
        Register::S6,
        Register::S5,
        Register::Ra,
    ];
    assert_eq!(0b10001000000000110001, AsmEvaluator::new().get_c_code(&regs));
}

#[test]
fn microinstruction() {
    let mut mi = Microinstruction::new(0);
    mi.next = 0b000000001;
    mi.jam = 0b000;
    mi.alu = 0b000111100;
    mi.c_bus = 0b00001100000000000000;
    mi.mem = 0b000;
    mi.a = 0b01011;
    mi.b = 0b01100;
    mi.immediate = 0b00000000;

    let expected = 0b000000001_000_000111100_00001100000000000000_000_01011_01100_00000000;

    assert_eq!(expected, mi.get());
}

#[test]
fn basic_add() {
    // add a0, a1 <- t0, a3
    let instructions = vec![
        Instruction::new_double_operand_instruction(
            DoubleOperandOpcode::Add,
            vec![Register::A0, Register::A1],
            Register::T0,
            Value::Reg(Register::A3),
        ),
        Instruction::new_no_operand_instruction(NoOperandOpcode::Halt),
    ];
    let seg = TextSegment::new_labeled_section(String::from("main"), instructions);
    let secs = Sections::new_text_section(vec![seg]);
    let firmware = AsmEvaluator::new().eval(&secs).unwrap().firmware();
    let expected = 0b000000001_000_000111100_00000000000000001100_000_01010_10011_00000000;

    assert_eq!(firmware[0], expected);
    assert_eq!(firmware[1], Microinstruction::HALT);
    for i in 2..=255 {
        assert_eq!(firmware[i], 0);
    }
}

#[test]
fn basic_addi() {
    // add a0, a1 <- t0, 5
    let instructions = vec![
        Instruction::new_double_operand_instruction(
            DoubleOperandOpcode::Addi,
            vec![Register::A0, Register::A1],
            Register::T0,
            Value::Immediate(5),
        ),
        Instruction::new_no_operand_instruction(NoOperandOpcode::Halt),
    ];
    let seg = TextSegment::new_labeled_section(String::from("main"), instructions);
    let secs = Sections::new_text_section(vec![seg]);
    let firmware = AsmEvaluator::new().eval(&secs).unwrap().firmware();
    let expected = 0b000000001_000_000111100_00000000000000001100_000_01010_00011_00000101;

    assert_eq!(firmware[0], expected);
    assert_eq!(firmware[1], Microinstruction::HALT);
    for i in 2..=255 {
        assert_eq!(firmware[i], 0);
    }
}

#[test]
fn basic_sub() {
    // sub a0, a1 <- t0, a3
    let instructions = vec![
        Instruction::new_double_operand_instruction(
            DoubleOperandOpcode::Sub,
            vec![Register::A0, Register::A1],
            Register::T0,
            Value::Reg(Register::A3),
        ),
        Instruction::new_no_operand_instruction(NoOperandOpcode::Halt),
    ];
    let seg = TextSegment::new_labeled_section(String::from("main"), instructions);
    let secs = Sections::new_text_section(vec![seg]);
    let firmware = AsmEvaluator::new().eval(&secs).unwrap().firmware();
    let expected = 0b000000001_000_000111111_00000000000000001100_000_11000_00101_00000000;

    assert_eq!(firmware[0], expected);
    assert_eq!(firmware[1], Microinstruction::HALT);
    for i in 2..=255 {
        assert_eq!(firmware[i], 0);
    }
}

#[test]
fn basic_subi() {
    // add a0, a1 <- t0, 7
    let instructions = vec![
        Instruction::new_double_operand_instruction(
            DoubleOperandOpcode::Subi,
            vec![Register::A0, Register::A1],
            Register::T0,
            Value::Immediate(7),
        ),
        Instruction::new_no_operand_instruction(NoOperandOpcode::Halt),
    ];
    let seg = TextSegment::new_labeled_section(String::from("main"), instructions);
    let secs = Sections::new_text_section(vec![seg]);
    let firmware = AsmEvaluator::new().eval(&secs).unwrap().firmware();
    let expected = 0b000000001_000_000111111_00000000000000001100_000_01000_00101_00000111;

    assert_eq!(firmware[0], expected);
    assert_eq!(firmware[1], Microinstruction::HALT);
    for i in 2..=255 {
        assert_eq!(firmware[i], 0);
    }
}

#[test]
fn test_xor() {
    // xor a0, a1 <- t0, a3
    let instructions = vec![
        Instruction::new_double_operand_instruction(
            DoubleOperandOpcode::Xor,
            vec![Register::A0, Register::A1],
            Register::T0,
            Value::Reg(Register::A3),
        ),
        Instruction::new_no_operand_instruction(NoOperandOpcode::Halt),
    ];
    let seg = TextSegment::new_labeled_section(String::from("main"), instructions);
    let secs = Sections::new_text_section(vec![seg]);
    let firmware = AsmEvaluator::new().eval(&secs).unwrap().firmware();
    let expected = 0b000000001_000_001001100_00000000000000001100_000_01010_10011_00000000;

    assert_eq!(firmware[0], expected);
    assert_eq!(firmware[1], Microinstruction::HALT);
    for i in 2..=255 {
        assert_eq!(firmware[i], 0);
    }
}

#[test]
fn test_xori() {
    // muli a0, a1 <- t0, 5
    let instructions = vec![
        Instruction::new_double_operand_instruction(
            DoubleOperandOpcode::Xori,
            vec![Register::A0, Register::A1],
            Register::T0,
            Value::Immediate(5),
        ),
        Instruction::new_no_operand_instruction(NoOperandOpcode::Halt),
    ];
    let seg = TextSegment::new_labeled_section(String::from("main"), instructions);
    let secs = Sections::new_text_section(vec![seg]);
    let firmware = AsmEvaluator::new().eval(&secs).unwrap().firmware();
    let expected = 0b000000001_000_001001100_00000000000000001100_000_01010_00011_00000101;

    assert_eq!(firmware[0], expected);
    assert_eq!(firmware[1], Microinstruction::HALT);
    for i in 2..=255 {
        assert_eq!(firmware[i], 0);
    }
}

#[test]
fn test_mul2() {
    // mul2 a0, a1 <- t0, a3
    let instructions = vec![
        Instruction::new_double_operand_instruction(
            DoubleOperandOpcode::Mul2,
            vec![Register::A0, Register::A1],
            Register::T0,
            Value::Reg(Register::A3),
        ),
        Instruction::new_no_operand_instruction(NoOperandOpcode::Halt),
    ];
    let seg = TextSegment::new_labeled_section(String::from("main"), instructions);
    let secs = Sections::new_text_section(vec![seg]);
    let firmware = AsmEvaluator::new().eval(&secs).unwrap().firmware();
    let expected = 0b000000001_000_001011100_00000000000000001100_000_01010_10011_00000000;

    assert_eq!(firmware[0], expected);
    assert_eq!(firmware[1], Microinstruction::HALT);
    for i in 2..=255 {
        assert_eq!(firmware[i], 0);
    }
}

#[test]
fn test_muli() {
    // muli a0, a1 <- t0, 5
    let instructions = vec![
        Instruction::new_double_operand_instruction(
            DoubleOperandOpcode::Muli,
            vec![Register::A0, Register::A1],
            Register::T0,
            Value::Immediate(5),
        ),
        Instruction::new_no_operand_instruction(NoOperandOpcode::Halt),
    ];
    let seg = TextSegment::new_labeled_section(String::from("main"), instructions);
    let secs = Sections::new_text_section(vec![seg]);
    let firmware = AsmEvaluator::new().eval(&secs).unwrap().firmware();
    let expected = 0b000000001_000_001011100_00000000000000001100_000_01010_00011_00000101;

    assert_eq!(firmware[0], expected);
    assert_eq!(firmware[1], Microinstruction::HALT);
    for i in 2..=255 {
        assert_eq!(firmware[i], 0);
    }
}

#[test]
fn test_div() {
    // mul2 a0, a1 <- t0, a3
    let instructions = vec![
        Instruction::new_double_operand_instruction(
            DoubleOperandOpcode::Div,
            vec![Register::A0, Register::A1],
            Register::T0,
            Value::Reg(Register::A3),
        ),
        Instruction::new_no_operand_instruction(NoOperandOpcode::Halt),
    ];
    let seg = TextSegment::new_labeled_section(String::from("main"), instructions);
    let secs = Sections::new_text_section(vec![seg]);
    let firmware = AsmEvaluator::new().eval(&secs).unwrap().firmware();
    let expected = 0b000000001_000_001101100_00000000000000001100_000_01010_10011_00000000;

    assert_eq!(firmware[0], expected);
    assert_eq!(firmware[1], Microinstruction::HALT);
    for i in 2..=255 {
        assert_eq!(firmware[i], 0);
    }
}

#[test]
fn test_divi() {
    // muli a0, a1 <- t0, 5
    let instructions = vec![
        Instruction::new_double_operand_instruction(
            DoubleOperandOpcode::Divi,
            vec![Register::A0, Register::A1],
            Register::T0,
            Value::Immediate(5),
        ),
        Instruction::new_no_operand_instruction(NoOperandOpcode::Halt),
    ];
    let seg = TextSegment::new_labeled_section(String::from("main"), instructions);
    let secs = Sections::new_text_section(vec![seg]);
    let firmware = AsmEvaluator::new().eval(&secs).unwrap().firmware();
    let expected = 0b000000001_000_001101100_00000000000000001100_000_01010_00011_00000101;

    assert_eq!(firmware[0], expected);
    assert_eq!(firmware[1], Microinstruction::HALT);
    for i in 2..=255 {
        assert_eq!(firmware[i], 0);
    }
}

#[test]
fn test_mod() {
    // mul2 a0, a1 <- t0, a3
    let instructions = vec![
        Instruction::new_double_operand_instruction(
            DoubleOperandOpcode::Mod,
            vec![Register::A0, Register::A1],
            Register::T0,
            Value::Reg(Register::A3),
        ),
        Instruction::new_no_operand_instruction(NoOperandOpcode::Halt),
    ];
    let seg = TextSegment::new_labeled_section(String::from("main"), instructions);
    let secs = Sections::new_text_section(vec![seg]);
    let firmware = AsmEvaluator::new().eval(&secs).unwrap().firmware();
    let expected = 0b000000001_000_001111100_00000000000000001100_000_01010_10011_00000000;

    assert_eq!(firmware[0], expected);
    assert_eq!(firmware[1], Microinstruction::HALT);
    for i in 2..=255 {
        assert_eq!(firmware[i], 0);
    }
}

#[test]
fn test_modi() {
    // muli a0, a1 <- t0, 5
    let instructions = vec![
        Instruction::new_double_operand_instruction(
            DoubleOperandOpcode::Modi,
            vec![Register::A0, Register::A1],
            Register::T0,
            Value::Immediate(5),
        ),
        Instruction::new_no_operand_instruction(NoOperandOpcode::Halt),
    ];
    let seg = TextSegment::new_labeled_section(String::from("main"), instructions);
    let secs = Sections::new_text_section(vec![seg]);
    let firmware = AsmEvaluator::new().eval(&secs).unwrap().firmware();
    let expected = 0b000000001_000_001111100_00000000000000001100_000_01010_00011_00000101;

    assert_eq!(firmware[0], expected);
    assert_eq!(firmware[1], Microinstruction::HALT);
    for i in 2..=255 {
        assert_eq!(firmware[i], 0);
    }
}

#[test]
fn test_lui() {
    let instructions = vec![
        Instruction::new_single_operand_instruction(
            SingleOperandOpcode::Lui,
            vec![Register::A3],
            Value::Immediate(1),
        ),
        Instruction::new_no_operand_instruction(NoOperandOpcode::Halt),
    ];
    let seg = TextSegment::new_labeled_section(String::from("main"), instructions);
    let secs = Sections::new_text_section(vec![seg]);
    let firmware = AsmEvaluator::new().eval(&secs).unwrap().firmware();

    let expected = 0b000000001_000_100011000_00000000000000000001_000_01000_11111_00000001;

    assert_eq!(firmware[0], expected);
    assert_eq!(firmware[1], Microinstruction::HALT);
    for i in 2..=255 {
        assert_eq!(firmware[i], 0);
    }
}

#[test]
fn test_mov() {
    let instructions = vec![
        Instruction::new_single_operand_instruction(
            SingleOperandOpcode::Mov,
            vec![Register::A3],
            Value::Reg(Register::Mdr),
        ),
        Instruction::new_no_operand_instruction(NoOperandOpcode::Halt),
    ];
    let seg = TextSegment::new_labeled_section(String::from("main"), instructions);
    let secs = Sections::new_text_section(vec![seg]);
    let firmware = AsmEvaluator::new().eval(&secs).unwrap().firmware();

    let expected = 0b000000001_000_000011000_00000000000000000001_000_00000_11111_00000000;

    assert_eq!(firmware[0], expected);
    assert_eq!(firmware[1], Microinstruction::HALT);
    for i in 2..=255 {
        assert_eq!(firmware[i], 0);
    }
}

#[test]
fn test_not() {
    let instructions = vec![
        Instruction::new_single_operand_instruction(
            SingleOperandOpcode::Not,
            vec![Register::A3, Register::A2],
            Value::Reg(Register::Mdr),
        ),
        Instruction::new_no_operand_instruction(NoOperandOpcode::Halt),
    ];
    let seg = TextSegment::new_labeled_section(String::from("main"), instructions);
    let secs = Sections::new_text_section(vec![seg]);
    let firmware = AsmEvaluator::new().eval(&secs).unwrap().firmware();

    let expected = 0b000000001_000_000011010_00000000000000000011_000_00000_11111_00000000;

    assert_eq!(firmware[0], expected);
    assert_eq!(firmware[1], Microinstruction::HALT);
    for i in 2..=255 {
        assert_eq!(firmware[i], 0);
    }
}

#[test]
fn test_sll() {
    let instructions = vec![
        Instruction::new_single_operand_instruction(
            SingleOperandOpcode::Sll,
            vec![Register::A3, Register::A2],
            Value::Reg(Register::Mdr),
        ),
        Instruction::new_no_operand_instruction(NoOperandOpcode::Halt),
    ];
    let seg = TextSegment::new_labeled_section(String::from("main"), instructions);
    let secs = Sections::new_text_section(vec![seg]);
    let firmware = AsmEvaluator::new().eval(&secs).unwrap().firmware();

    let expected = 0b000000001_000_100011000_00000000000000000011_000_00000_11111_00000000;

    assert_eq!(firmware[0], expected);
    assert_eq!(firmware[1], Microinstruction::HALT);
    for i in 2..=255 {
        assert_eq!(firmware[i], 0);
    }
}

#[test]
fn test_sla() {
    let instructions = vec![
        Instruction::new_single_operand_instruction(
            SingleOperandOpcode::Sla,
            vec![Register::A3, Register::A2],
            Value::Reg(Register::Mdr),
        ),
        Instruction::new_no_operand_instruction(NoOperandOpcode::Halt),
    ];
    let seg = TextSegment::new_labeled_section(String::from("main"), instructions);
    let secs = Sections::new_text_section(vec![seg]);
    let firmware = AsmEvaluator::new().eval(&secs).unwrap().firmware();

    let expected = 0b000000001_000_110011000_00000000000000000011_000_00000_11111_00000000;

    assert_eq!(firmware[0], expected);
    assert_eq!(firmware[1], Microinstruction::HALT);
    for i in 2..=255 {
        assert_eq!(firmware[i], 0);
    }
}

#[test]
fn test_sra() {
    let instructions = vec![
        Instruction::new_single_operand_instruction(
            SingleOperandOpcode::Sra,
            vec![Register::A3, Register::A2],
            Value::Reg(Register::Mdr),
        ),
        Instruction::new_no_operand_instruction(NoOperandOpcode::Halt),
    ];
    let seg = TextSegment::new_labeled_section(String::from("main"), instructions);
    let secs = Sections::new_text_section(vec![seg]);
    let firmware = AsmEvaluator::new().eval(&secs).unwrap().firmware();

    let expected = 0b000000001_000_010011000_00000000000000000011_000_00000_11111_00000000;

    assert_eq!(firmware[0], expected);
    assert_eq!(firmware[1], Microinstruction::HALT);
    for i in 2..=255 {
        assert_eq!(firmware[i], 0);
    }
}

#[test]
fn evaluator_mul() {
    // mul a0 <- a1, a2
    let instructions = vec![
        Instruction::new_double_operand_instruction(
            DoubleOperandOpcode::Mul,
            vec![Register::A0],
            Register::A1,
            Value::Reg(Register::A2),
        ),
        Instruction::new_no_operand_instruction(NoOperandOpcode::Halt),
    ];
    let seg = TextSegment::new_labeled_section(String::from("main"), instructions);
    let secs = Sections::new_text_section(vec![seg]);
    let firmware = AsmEvaluator::new().eval(&secs).unwrap().firmware();

    let no_branch_mcode: Vec<u64> = vec![
        // JUMP if a1 > a2 (a2 - a1 < 0)
        0b000000001_010_000111111_00000000000000000000_000_10110_10010_00000000,
        // CASE 1 (has not branched)
        // Copy a1 into t0
        0b000000010_000_000011000_00000100000000000000_000_10110_11111_00000000,
        // Copy a2 into t1, t2, a0
        0b000000011_000_000011000_00000011000000001000_000_10111_11111_00000000,
        // Intersection between the cases: t1 + .. + t1, t0-times
        // t0 <- t0 - 1 or JUMP if (t0 - 1) = 0
        0b000000100_001_000110110_00000100000000000000_000_11111_00101_00000000,
        // a0, t1 <- t1 + t2
        0b000000011_000_000111100_00000010000000001000_000_01011_00111_00000000,
        // CASE 2.1
        // Copy a1 into t1, t2, a0 and go to loop
        0b000000011_000_000011000_00000011000000001000_000_10110_11111_00000000,
        Microinstruction::HALT,
    ];

    let brached_mcode: Vec<u64> = vec![
        // CASE 2: has branched
        // Copy a2 into t0 as go to CASE 2.1
        0b000000101_000_000011000_00000100000000000000_000_10111_11111_00000000,
    ];

    for (addr, &mi) in no_branch_mcode.iter().enumerate() {
        assert_eq!(mi, firmware[addr]);
    }

    for (addr, &mi) in brached_mcode.iter().enumerate() {
        let addr = addr + 0b100000001;
        assert_eq!(mi, firmware[addr]);
    }
    let jal = 0b000000110_000_000000000_00000000000000000000_000_11111_11111_00000000;
    assert_eq!(jal, firmware[0b100000100]);
}

#[test]
fn read() {
    let program = Program {
        sections: vec![
            Sections::new_data_section(vec![
                Sections::new_data_writed(DataKind::Word(777), String::from("tubias")),
                Sections::new_data_writed(DataKind::Word(42069), String::from("gepeto")),
                Sections::new_data_writed(DataKind::Byte(0), String::from("tubias_addr")),
            ]),
            Sections::new_text_section(vec![TextSegment::new_labeled_section(
                String::from("main"),
                vec![
                    Instruction::new_read_instruction(
                        ImmediateOrLabel::Immediate(0),
                        vec![Register::A1, Register::A2, Register::A3],
                    ),
                    Instruction::new_read_instruction(
                        ImmediateOrLabel::Label(String::from("gepeto")),
                        vec![Register::A1],
                    ),
                    Instruction::new_read_instruction(
                        ImmediateOrLabel::Label(String::from("tubias_addr")),
                        vec![Register::A1],
                    ),
                    Instruction::new_no_operand_instruction(NoOperandOpcode::Halt),
                ],
            )]),
        ],
        errors: vec![],
    };
    let mut eval = AsmEvaluator::new();
    let (cs, _) = eval.eval_program(program).unwrap();
    let firmware = cs.firmware();

    let expected = [
        // mar <- 0 and READ
        0b000000001_000_000011000_01000000000000000000_010_01000_11111_00000000,
        // a1, a2, a3 <- mdr
        0b000000010_000_000011000_00000000000000000111_000_00000_11111_00000000,
        // mar <- 1 and READ
        0b000000011_000_000011000_01000000000000000000_010_01000_11111_00000001,
        // a1 <- mdr
        0b000000100_000_000011000_00000000000000000100_000_00000_11111_00000000,
        // mar <- 0 and READ
        0b000000101_000_000011000_01000000000000000000_010_01000_11111_00000000,
        // a1 <- mdr
        0b000000110_000_000011000_00000000000000000100_000_00000_11111_00000000,
        Microinstruction::HALT,
    ];

    for (addr, mi) in expected.iter().enumerate() {
        assert_eq!(firmware[addr], *mi);
    }

    for i in expected.len()..=255 {
        assert_eq!(firmware[i], 0);
    }
}

#[test]
fn write() {
    let program = Program {
        sections: vec![
            Sections::new_data_section(vec![
                Sections::new_data_writed(DataKind::Word(777), String::from("tubias")),
                Sections::new_data_writed(DataKind::Word(42069), String::from("gepeto")),
                Sections::new_data_writed(DataKind::Byte(0), String::from("tubias_addr")),
            ]),
            Sections::new_text_section(vec![TextSegment::new_labeled_section(
                String::from("main"),
                vec![
                    Instruction::new_write_instruction(
                        ImmediateOrLabel::Immediate(0),
                        Register::A3,
                    ),
                    Instruction::new_write_instruction(
                        ImmediateOrLabel::Label(String::from("gepeto")),
                        Register::A2,
                    ),
                    Instruction::new_write_instruction(
                        ImmediateOrLabel::Label(String::from("tubias_addr")),
                        Register::A1,
                    ),
                    Instruction::new_no_operand_instruction(NoOperandOpcode::Halt),
                ],
            )]),
        ],
        errors: vec![],
    };
    let mut eval = AsmEvaluator::new();
    let (cs, _) = eval.eval_program(program).unwrap();
    let firmware = cs.firmware();

    let expected = [
        // mdr <- a3
        0b000000001_000_000011000_10000000000000000000_000_11000_11111_00000000,
        // mar <- 0 and WRITE
        0b000000010_000_000011000_01000000000000000000_100_01000_11111_00000000,
        // mdr <- a2
        0b000000011_000_000011000_10000000000000000000_000_10111_11111_00000000,
        // mar <- address of gepeto that is 1 and WRITE
        0b000000100_000_000011000_01000000000000000000_100_01000_11111_00000001,
        // mdr <- a1
        0b000000101_000_000011000_10000000000000000000_000_10110_11111_00000000,
        // mar <- tubias_addr that is 0 and WRITE
        0b000000110_000_000011000_01000000000000000000_100_01000_11111_00000000,
        Microinstruction::HALT,
    ];

    for (addr, mi) in expected.iter().enumerate() {
        assert_eq!(firmware[addr], *mi);
    }

    for i in expected.len()..=255 {
        assert_eq!(firmware[i], 0);
    }
}

#[test]
fn jal() {
    let instructions = vec![
        Instruction::new_jal_instruction(String::from("tubias")),
        Instruction::new_no_operand_instruction(NoOperandOpcode::Halt),
    ];
    let tubias = TextSegment::new_labeled_section(
        String::from("tubias"),
        vec![Instruction::new_no_operand_instruction(NoOperandOpcode::Halt)],
    );
    let main = TextSegment::new_labeled_section(String::from("main"), instructions);
    let secs = Sections::new_text_section(vec![tubias, main]);
    let firmware = AsmEvaluator::new().eval(&secs).unwrap().firmware();

    let expected = [
        Microinstruction::HALT,
        0b000000000_000_000000000_00000000000000000000_000_11111_11111_00000000,
        Microinstruction::HALT,
    ];

    for (addr, mi) in expected.iter().enumerate() {
        assert_eq!(firmware[addr], *mi);
    }

    for i in expected.len()..=255 {
        assert_eq!(firmware[i], 0);
    }
}

#[test]
fn beq() {
    let done = TextSegment::new_labeled_section(
        String::from("done"),
        vec![Instruction::new_double_operand_instruction(
            DoubleOperandOpcode::Add,
            vec![Register::A0],
            Register::A1,
            Value::Reg(Register::A2),
        )],
    );
    let main = TextSegment::new_labeled_section(
        String::from("main"),
        vec![
            Instruction::new_double_operand_instruction(
                DoubleOperandOpcode::Add,
                vec![Register::A0],
                Register::A1,
                Value::Reg(Register::A2),
            ),
            Instruction::new_branch_instruction(
                BranchOp::Beq,
                Register::A1,
                Register::A2,
                String::from("done"),
            ),
        ],
    );
    let secs = Sections::new_text_section(vec![done, main]);
    let firmware = AsmEvaluator::new().eval(&secs).unwrap().firmware();

    let no_branch_mcode: Vec<u64> = vec![
        // add a0 <- a1, a2
        0b000000001_000_000111100_00000000000000001000_000_10110_10010_00000000,
        // add a0 <- a1, a2
        0b000000010_000_000111100_00000000000000001000_000_10110_10010_00000000,
        // beq a1 == a2, done
        0b000000011_001_000111111_00000000000000000000_000_10110_10010_00000000,
    ];

    let branched_mcode = 0b000000000_000_000000000_00000000000000000000_000_11111_11111_00000000;

    for (addr, &mi) in no_branch_mcode.iter().enumerate() {
        assert_eq!(mi, firmware[addr]);
    }

    let branched_addr = 3 | 0b100000000;
    assert_eq!(branched_mcode, firmware[branched_addr]);
}

#[test]
fn blt() {
    let done = TextSegment::new_labeled_section(
        String::from("done"),
        vec![Instruction::new_double_operand_instruction(
            DoubleOperandOpcode::Add,
            vec![Register::A0],
            Register::A1,
            Value::Reg(Register::A2),
        )],
    );
    let main = TextSegment::new_labeled_section(
        String::from("main"),
        vec![
            Instruction::new_double_operand_instruction(
                DoubleOperandOpcode::Add,
                vec![Register::A0],
                Register::A1,
                Value::Reg(Register::A2),
            ),
            Instruction::new_branch_instruction(
                BranchOp::Blt,
                Register::A2,
                Register::A3,
                String::from("done"),
            ),
        ],
    );
    let secs = Sections::new_text_section(vec![done, main]);
    let firmware = AsmEvaluator::new().eval(&secs).unwrap().firmware();

    let no_branch_mcode: Vec<u64> = vec![
        // add a0 <- a1, a2
        0b000000001_000_000111100_00000000000000001000_000_10110_10010_00000000,
        // add a0 <- a1, a2
        0b000000010_000_000111100_00000000000000001000_000_10110_10010_00000000,
        // blt a2, a3, done
        0b000000011_010_000111111_00000000000000000000_000_11000_10010_00000000,
    ];

    let branched_mcode = 0b000000000_000_000000000_00000000000000000000_000_11111_11111_00000000;

    for (addr, &mi) in no_branch_mcode.iter().enumerate() {
        assert_eq!(mi, firmware[addr]);
    }

    let branched_addr = 3 | 0b100000000;
    assert_eq!(branched_mcode, firmware[branched_addr]);
}

#[test]
fn bgt() {
    let done = TextSegment::new_labeled_section(
        String::from("done"),
        vec![Instruction::new_double_operand_instruction(
            DoubleOperandOpcode::Add,
            vec![Register::A0],
            Register::A1,
            Value::Reg(Register::A2),
        )],
    );
    let main = TextSegment::new_labeled_section(
        String::from("main"),
        vec![
            Instruction::new_double_operand_instruction(
                DoubleOperandOpcode::Add,
                vec![Register::A0],
                Register::A1,
                Value::Reg(Register::A2),
            ),
            Instruction::new_branch_instruction(
                BranchOp::Bgt,
                Register::A2,
                Register::A3,
                String::from("done"),
            ),
        ],
    );
    let secs = Sections::new_text_section(vec![done, main]);
    let firmware = AsmEvaluator::new().eval(&secs).unwrap().firmware();

    let no_branch_mcode: Vec<u64> = vec![
        // add a0 <- a1, a2
        0b000000001_000_000111100_00000000000000001000_000_10110_10010_00000000,
        // add a0 <- a1, a2
        0b000000010_000_000111100_00000000000000001000_000_10110_10010_00000000,
        // bgt a2, a3, done
        0b000000011_010_000111111_00000000000000000000_000_10111_10011_00000000,
    ];

    let branched_mcode = 0b000000000_000_000000000_00000000000000000000_000_11111_11111_00000000;

    for (addr, &mi) in no_branch_mcode.iter().enumerate() {
        assert_eq!(mi, firmware[addr]);
    }

    let branched_addr = 3 | 0b100000000;
    assert_eq!(branched_mcode, firmware[branched_addr]);
}

#[test]
fn bne() {
    let done = TextSegment::new_labeled_section(
        String::from("done"),
        vec![Instruction::new_double_operand_instruction(
            DoubleOperandOpcode::Add,
            vec![Register::A0],
            Register::A1,
            Value::Reg(Register::A2),
        )],
    );
    let main = TextSegment::new_labeled_section(
        String::from("main"),
        vec![
            Instruction::new_double_operand_instruction(
                DoubleOperandOpcode::Add,
                vec![Register::A0],
                Register::A1,
                Value::Reg(Register::A2),
            ),
            Instruction::new_branch_instruction(
                BranchOp::Bne,
                Register::A2,
                Register::A3,
                String::from("done"),
            ),
        ],
    );
    let secs = Sections::new_text_section(vec![done, main]);
    let firmware = AsmEvaluator::new().eval(&secs).unwrap().firmware();

    let no_branch_mcode: Vec<u64> = vec![
        // add a0 <- a1, a2
        0b000000001_000_000111100_00000000000000001000_000_10110_10010_00000000,
        // add a0 <- a1, a2
        0b000000010_000_000111100_00000000000000001000_000_10110_10010_00000000,
        // bne a2, a3, done
        0b000000011_010_000111111_00000000000000000000_000_10111_10011_00000000,
        0b000000100_010_000111111_00000000000000000000_000_11000_10010_00000000,
    ];

    let branched_mcode = vec![
        0b000000000_000_000000000_00000000000000000000_000_11111_11111_00000000,
        0b000000000_000_000000000_00000000000000000000_000_11111_11111_00000000,
    ];

    for (addr, &mi) in no_branch_mcode.iter().enumerate() {
        assert_eq!(mi, firmware[addr]);
    }

    let branched_addr = 3 | 0b100000000;
    assert_eq!(branched_mcode[0], firmware[branched_addr]);
    assert_eq!(branched_mcode[1], firmware[branched_addr + 1]);
}

#[test]
fn resolve_unreachable() {
    let main = TextSegment::new_labeled_section(
        String::from("main"),
        vec![
            Instruction::new_double_operand_instruction(
                DoubleOperandOpcode::Add,
                vec![Register::A0],
                Register::A1,
                Value::Reg(Register::A2),
            ),
            Instruction::new_branch_instruction(
                BranchOp::Beq,
                Register::A2,
                Register::A3,
                String::from("unresolved"),
            ),
        ],
    );
    let unresolved = TextSegment::new_labeled_section(
        String::from("unresolved"),
        vec![Instruction::new_double_operand_instruction(
            DoubleOperandOpcode::Add,
            vec![Register::A0],
            Register::A1,
            Value::Reg(Register::A2),
        )],
    );

    let mut evaluator = AsmEvaluator::new();
    let mut state = CsState::new();
    evaluator.eval_txt_seg(&main, &mut state).unwrap();
    evaluator.eval_txt_seg(&unresolved, &mut state).unwrap();
    evaluator.resolve_unreachable(&mut state).unwrap();

    let firmware = state.build_cs().firmware();

    let no_branch_mcode: Vec<u64> = vec![
        // add a0 <- a1, a2
        0b000000001_000_000111100_00000000000000001000_000_10110_10010_00000000,
        // beq a2, a3, done
        0b000000010_001_000111111_00000000000000000000_000_10111_10011_00000000,
        // add a0 <- a1, a2
        0b000000011_000_000111100_00000000000000001000_000_10110_10010_00000000,
    ];

    let branched_mcode = 0b000000010_000_000000000_00000000000000000000_000_11111_11111_00000000;

    for (addr, &mi) in no_branch_mcode.iter().enumerate() {
        assert_eq!(mi, firmware[addr]);
    }

    let branched_addr = 2 | 0b100000000;
    assert_eq!(branched_mcode, firmware[branched_addr]);
}
