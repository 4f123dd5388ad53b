use vondel::assembler::lexer::Lexer;
use vondel::assembler::parser::{Parser, ParserError, Program};

fn create_program(input: &str) -> Program {
    let mut l = Lexer::new(input);
    let toks = l.get_deez_toks_w_ctx();
    let mut p = Parser::new(toks);
    p.get_deez_program()
}

fn first_error(input: &str) -> ParserError {
    let program = create_program(input);
    assert!(program.errors.len() > 0);
    program.errors[0].clone()
}

#[test]
fn unexpected_token_for_unlowerable_mnemonic() {
    let e = first_error(".text\nmain:\n  slt t0 <- t1, t2\n");
    assert!(matches!(e, ParserError::UnexpectedToken { .. }));
}

#[test]
fn expected_token_for_missing_assign() {
    let e = first_error(".text\nmain:\n  add t0 t1\n");
    assert!(matches!(e, ParserError::ExpectedToken { .. }));
}

#[test]
fn expected_register_for_numeric_source() {
    let e = first_error(".text\nmain:\n  add t0 <- 5, t1\n");
    assert!(matches!(e, ParserError::ExpectedRegister { .. }));
}

#[test]
fn expected_label_for_numeric_jump_target() {
    let e = first_error(".text\nmain:\n  jal 5\n");
    assert!(matches!(e, ParserError::ExpectedLabel { .. }));
}

#[test]
fn expected_pseudo_op_for_bare_word() {
    let e = first_error("foo\n");
    assert!(matches!(e, ParserError::ExpectedPseudoOp { .. }));
}

#[test]
fn expected_byte_or_word_for_other_directive() {
    let e = first_error(".data\n  x: .text\n");
    assert!(matches!(e, ParserError::ExpectedByteOrWordType { .. }));
}

#[test]
fn expected_number_for_register_immediate() {
    let e = first_error(".text\nmain:\n  addi t0 <- t1, t2\n");
    assert!(matches!(e, ParserError::ExpectedNumber { .. }));
}

#[test]
fn directive_outside_section() {
    let e = first_error(".word 5\n");
    assert!(matches!(e, ParserError::ExpectedToBeInSection { .. }));
}

#[test]
fn mar_cannot_drive_the_a_bus() {
    let e = first_error(".text\nmain:\n  add t0 <- mar, t1\n");
    assert!(matches!(e, ParserError::RegisterCannotBeUsedInABus { .. }));
}

#[test]
fn pc_cannot_drive_the_b_bus() {
    let e = first_error(".text\nmain:\n  add t0 <- t1, pc\n");
    assert!(matches!(e, ParserError::RegisterCannotBeUsedInBBus { .. }));
}

#[test]
fn cpp_cannot_be_a_c_bus_destination() {
    let e = first_error(".text\nmain:\n  add cpp <- t1, t2\n");
    assert!(matches!(e, ParserError::RegisterCannotBeUsedInCBus { .. }));
}

#[test]
fn read_address_must_be_immediate_or_label() {
    let e = first_error(".text\nmain:\n  read a1 <- ,\n");
    assert!(matches!(e, ParserError::OnlyAcceptsImmediateOrLabel { .. }));
}

#[test]
fn out_of_range_immediate_is_invalid() {
    let e = first_error(".text\nmain:\n  addi t0 <- t1, 300\n");
    assert!(matches!(e, ParserError::InvalidNumber { .. }));
}
