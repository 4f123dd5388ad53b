use vondel::assembler::evaluator::{AsmError, AsmEvaluator, Microinstruction};
use vondel::assembler::sections::{
    DataKind, DoubleOperandOpcode, ImmediateOrLabel, Instruction, NoOperandOpcode, Sections,
    TextSegment, Value,
};
use vondel::assembler::tokens::Register;
use vondel::assembler::parser::{parse_i32, parse_u8};
use vondel::uarch::mem::{CtrlStore, MemRegs, Ram};
use vondel::uarch::Computer;

// General-purpose register indices, in the file's order.
const A0: usize = 12;
const A1: usize = 13;
const A2: usize = 14;
const A3: usize = 15;

fn assemble(src: &str) -> (CtrlStore, Vec<u32>) {
    AsmEvaluator::new().evaluate_buffer(src).unwrap()
}

fn boot(cs: CtrlStore, ram_img: Vec<u32>, preload: &[(usize, u32)]) -> Computer {
    let mut ram = Ram::new();
    ram.load(0, ram_img);
    let mut comp = Computer::new(ram, cs);
    for &(idx, v) in preload {
        comp.regs_mut().gen.set(idx, v);
    }
    comp
}

fn gp(comp: &Computer, idx: usize) -> u32 {
    comp.regs().gen.get(idx).unwrap()
}

#[test]
fn add_two_registers() {
    let (cs, ram) = assemble(
        "
.text
main:
  addi a0 <- a1, 0
  add  a0 <- a0, a2
  halt
",
    );
    let mut comp = boot(cs, ram, &[(A1, 7), (A2, 5)]);
    comp.exec().unwrap();
    assert_eq!(gp(&comp, A0), 12);
}

#[test]
fn multiply_via_macro() {
    let src = "
.text
main:
  mul a0 <- a1, a2
  halt
";
    let (cs, ram) = assemble(src);
    let mut comp = boot(cs, ram, &[(A1, 5), (A2, 6)]);
    comp.exec().unwrap();
    assert_eq!(gp(&comp, A0), 30);

    let (cs, ram) = assemble(src);
    let mut comp = boot(cs, ram, &[(A1, 6), (A2, 5)]);
    comp.exec().unwrap();
    assert_eq!(gp(&comp, A0), 30);
}

#[test]
fn memory_round_trip() {
    let (cs, ram) = assemble(
        "
.data
  slot: .word 0
.text
main:
  addi a1 <- a1, 42
  write slot <- a1
  read  a2 <- slot
  halt
",
    );
    let mut comp = boot(cs, ram, &[]);
    comp.exec().unwrap();
    assert_eq!(comp.ram().get(0), 42);
    assert_eq!(gp(&comp, A2), 42);
}

#[test]
fn conditional_branch_taken() {
    let src = "
.text
main:
  beq a1, a2, done
  addi a3 <- a3, 1
done:
  halt
";
    let (cs, ram) = assemble(src);
    let mut comp = boot(cs, ram, &[(A1, 9), (A2, 9)]);
    comp.exec().unwrap();
    assert_eq!(gp(&comp, A3), 0);
}

#[test]
fn conditional_branch_not_taken() {
    let src = "
.text
main:
  beq a1, a2, done
  addi a3 <- a3, 1
done:
  halt
";
    let (cs, ram) = assemble(src);
    let mut comp = boot(cs, ram, &[(A1, 9), (A2, 8)]);
    comp.exec().unwrap();
    assert_eq!(gp(&comp, A3), 1);
}

#[test]
fn forward_jump_resolution() {
    let (cs, ram) = assemble(
        "
.text
main:
  jal later
  halt
later:
  addi a0 <- a0, 7
  halt
",
    );
    let mut comp = boot(cs, ram, &[]);
    comp.exec().unwrap();
    assert_eq!(gp(&comp, A0), 7);
}

#[test]
fn data_label_as_byte_immediate() {
    // `addi a0 <- a0, k` with `k: .byte 9`: the data label stands in for
    // an 8-bit immediate. The surface parser only reads numeric
    // immediates for `addi`, so the program is built as an AST.
    let program = vec![
        Sections::new_data_section(vec![Sections::new_data_writed(
            DataKind::Byte(9),
            String::from("k"),
        )]),
        Sections::new_text_section(vec![TextSegment::new_labeled_section(
            String::from("main"),
            vec![
                Instruction::new_double_operand_instruction(
                    DoubleOperandOpcode::Addi,
                    vec![Register::A0],
                    Register::A0,
                    Value::Label(String::from("k")),
                ),
                Instruction::new_no_operand_instruction(NoOperandOpcode::Halt),
            ],
        )]),
    ];
    let mut ev = AsmEvaluator::new();
    let (cs, ram) = ev
        .eval_program(vondel::assembler::parser::Program { sections: program, errors: vec![] })
        .unwrap();
    let mut comp = boot(cs, ram, &[]);
    comp.exec().unwrap();
    assert_eq!(gp(&comp, A0), 9);
}

#[test]
fn nops_then_halt_leave_registers_zero() {
    // One NOP, then HALT: every architectural register stays zero and
    // the run takes exactly two cycles.
    let (cs, ram) = assemble(
        "
.text
main:
  nop
  halt
",
    );
    let mut comp = boot(cs, ram, &[]);
    comp.exec().unwrap();
    for i in 0..16 {
        assert_eq!(gp(&comp, i), 0);
    }
    assert_eq!(comp.regs().sys.lv, 0);
    assert_eq!(comp.regs().mem.pc(), 0);
    assert_eq!(comp.cycles(), 2);

    // Three NOPs, then HALT: still nothing written.
    let (cs, ram) = assemble(
        "
.text
main:
  nop
  nop
  nop
  halt
",
    );
    let mut comp = boot(cs, ram, &[]);
    comp.exec().unwrap();
    for i in 0..16 {
        assert_eq!(gp(&comp, i), 0);
    }
}

#[test]
fn halt_only_takes_one_cycle() {
    let (cs, ram) = assemble(
        "
.text
main:
  halt
",
    );
    let mut comp = boot(cs, ram, &[]);
    comp.exec().unwrap();
    assert_eq!(comp.cycles(), 1);
}

#[test]
fn microinstruction_word_round_trip() {
    let words: [u64; 5] = [
        0,
        0b000000001_000_000111100_00000000000000001100_000_01010_10011_00000000,
        0b000000011_001_000111111_00000000000000000000_000_10110_10010_00000000,
        u64::MAX,
        0x123456789abcdef0,
    ];
    for &w in words.iter() {
        assert_eq!(Microinstruction::from_word(w).get(), w);
    }
}

#[test]
fn unbound_label_is_fatal() {
    let mut ev = AsmEvaluator::new();
    let r = ev.evaluate_buffer(
        "
.text
main:
  jal nowhere
  halt
",
    );
    match r {
        Err(AsmError::UnboundLabel(l)) => assert_eq!(l, String::from("nowhere")),
        _ => panic!("expected an unbound-label failure"),
    }
}

#[test]
fn mar_on_a_bus_is_rejected() {
    let secs = Sections::new_text_section(vec![TextSegment::new_labeled_section(
        String::from("main"),
        vec![Instruction::new_write_instruction(
            ImmediateOrLabel::Immediate(0),
            Register::Mar,
        )],
    )]);
    let r = AsmEvaluator::new().eval(&secs);
    match r {
        Err(e) => assert_eq!(e, AsmError::BusConstraint(Register::Mar)),
        Ok(_) => panic!("expected a bus-constraint failure"),
    }
}

#[test]
fn mul_needs_register_operands() {
    let secs = Sections::new_text_section(vec![TextSegment::new_labeled_section(
        String::from("main"),
        vec![Instruction::new_double_operand_instruction(
            DoubleOperandOpcode::Mul,
            vec![Register::A0],
            Register::A1,
            Value::Immediate(3),
        )],
    )]);
    let r = AsmEvaluator::new().eval(&secs);
    match r {
        Err(e) => assert_eq!(e, AsmError::BadOperand),
        Ok(_) => panic!("expected a bad-operand failure"),
    }
}

#[test]
fn parse_errors_are_fatal() {
    let mut ev = AsmEvaluator::new();
    let r = ev.evaluate_buffer(".word 5");
    match r {
        Err(AsmError::ParseErrors(errs)) => assert!(errs.len() > 0),
        _ => panic!("expected parse errors"),
    }
}

#[test]
fn consuming_mbr_pops_one_byte_and_advances_pc_by_one() {
    let mut ram = Ram::new();
    ram.set(0, 0x0403_0201);
    let mut m = MemRegs::new();
    m.fetch(&ram).unwrap();
    assert_eq!(m.pc(), 0);
    let b = m.mbr();
    assert_eq!(b, 0x01);
    assert_eq!(m.pc(), 1);
    let b = m.mbr();
    assert_eq!(b, 0x02);
    assert_eq!(m.pc(), 2);
}

#[test]
fn consuming_mbr2_pops_two_bytes_and_advances_pc_by_two() {
    let mut ram = Ram::new();
    ram.set(0, 0x0403_0201);
    let mut m = MemRegs::new();
    m.fetch(&ram).unwrap();
    let h = m.mbr2();
    assert_eq!(h, 0x0201);
    assert_eq!(m.pc(), 2);
    let h = m.mbr2();
    assert_eq!(h, 0x0403);
    assert_eq!(m.pc(), 4);
}

#[test]
fn empty_write_mask_changes_no_register() {
    // A NOP's all-zero C-bus mask drives nothing.
    let (cs, ram) = assemble(
        "
.text
main:
  nop
  halt
",
    );
    let mut comp = boot(cs, ram, &[(A0, 5), (A1, 6), (A2, 7)]);
    comp.exec().unwrap();
    assert_eq!(gp(&comp, A0), 5);
    assert_eq!(gp(&comp, A1), 6);
    assert_eq!(gp(&comp, A2), 7);
}

#[test]
fn number_parsing_bounds() {
    assert_eq!(parse_u8("0"), Some(0));
    assert_eq!(parse_u8("255"), Some(255));
    assert_eq!(parse_u8("256"), None);
    assert_eq!(parse_u8("-1"), None);
    assert_eq!(parse_u8(""), None);
    assert_eq!(parse_i32("2147483647"), Some(2147483647));
    assert_eq!(parse_i32("2147483648"), None);
    assert_eq!(parse_i32("-2147483648"), Some(-2147483648));
    assert_eq!(parse_i32("-2147483649"), None);
    assert_eq!(parse_i32("-"), None);
    assert_eq!(parse_i32("12x"), None);
}

#[test]
fn fetch_feeds_mbr_through_the_a_bus() {
    // Hand-built firmware: fetch a word into the queue, then copy the
    // front byte (MBR, zero-extended) into A0 and halt.
    let mut fetch = Microinstruction::new(1);
    fetch.mem = 0b001;
    let mut take = Microinstruction::new(2);
    take.alu = 0b000011000;
    take.a = 0b00011;
    take.c_bus = 0x8;
    let cs = CtrlStore::builder()
        .set(0, fetch.get())
        .set(1, take.get())
        .set(2, u64::MAX)
        .build();
    let mut ram = Ram::new();
    ram.set(0, 0x0000_0042);
    let mut comp = Computer::new(ram, cs);
    comp.exec().unwrap();
    assert_eq!(gp(&comp, A0), 0x42);
    // The consuming read advanced PC by exactly one byte.
    assert_eq!(comp.regs().mem.pc(), 1);
}

#[test]
fn bne_branches_on_inequality() {
    let src = "
.text
main:
  bne a1, a2, done
  addi a3 <- a3, 1
done:
  halt
";
    let (cs, ram) = assemble(src);
    let mut comp = boot(cs, ram, &[(A1, 1), (A2, 2)]);
    comp.exec().unwrap();
    assert_eq!(gp(&comp, A3), 0);

    let (cs, ram) = assemble(src);
    let mut comp = boot(cs, ram, &[(A1, 2), (A2, 2)]);
    comp.exec().unwrap();
    assert_eq!(gp(&comp, A3), 1);
}

#[test]
fn blt_branches_on_less_than() {
    let src = "
.text
main:
  blt a1, a2, done
  addi a3 <- a3, 1
done:
  halt
";
    let (cs, ram) = assemble(src);
    let mut comp = boot(cs, ram, &[(A1, 1), (A2, 2)]);
    comp.exec().unwrap();
    assert_eq!(gp(&comp, A3), 0);

    let (cs, ram) = assemble(src);
    let mut comp = boot(cs, ram, &[(A1, 2), (A2, 1)]);
    comp.exec().unwrap();
    assert_eq!(gp(&comp, A3), 1);
}

#[test]
fn bgt_branches_on_greater_than() {
    let src = "
.text
main:
  bgt a1, a2, done
  addi a3 <- a3, 1
done:
  halt
";
    let (cs, ram) = assemble(src);
    let mut comp = boot(cs, ram, &[(A1, 3), (A2, 2)]);
    comp.exec().unwrap();
    assert_eq!(gp(&comp, A3), 0);

    let (cs, ram) = assemble(src);
    let mut comp = boot(cs, ram, &[(A1, 2), (A2, 2)]);
    comp.exec().unwrap();
    assert_eq!(gp(&comp, A3), 1);
}

#[test]
fn lui_loads_the_upper_immediate() {
    let (cs, ram) = assemble(
        "
.text
main:
  lui a0 <- 2
  halt
",
    );
    let mut comp = boot(cs, ram, &[]);
    comp.exec().unwrap();
    assert_eq!(gp(&comp, A0), 2 << 8);
}
