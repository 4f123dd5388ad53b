use vondel::assembler::lexer::Lexer;
use vondel::assembler::tokens::{AsmToken, Opcode, PseudoOps, Register, TokWithCtx};

#[test]
fn lexer_skip_whitespace() {
    let input = "    \t\n tubias";
    let mut l = Lexer::new(input);
    assert_eq!(l.next_token(), AsmToken::Label(String::from("tubias")));
}

#[test]
fn ignore_comments() {
    let input = "# this is a comment\n tubias ; another comment here \n another_tubias #comment until end";
    let mut l = Lexer::new(input);
    assert_eq!(l.next_token(), AsmToken::Label(String::from("tubias")));
    assert_eq!(l.next_token(), AsmToken::Label(String::from("another_tubias")));
    assert_eq!(l.next_token(), AsmToken::Eof);
}

#[test]
fn get_registers() {
    let input = r"
        mar mdr pc mbr mbr2 cpp lv
        ra t0 t1 t2 t3
        s0 s1 s2 s3 s4 s5 s6
        a0 a1 a2 a3
        ";
    let mut l = Lexer::new(input);

    let toks = vec![
        AsmToken::Reg(Register::Mar),
        AsmToken::Reg(Register::Mdr),
        AsmToken::Reg(Register::Pc),
        AsmToken::Reg(Register::Mbr),
        AsmToken::Reg(Register::Mbr2),
        AsmToken::Reg(Register::Cpp),
        AsmToken::Reg(Register::Lv),
        AsmToken::Reg(Register::Ra),
        AsmToken::Reg(Register::T0),
        AsmToken::Reg(Register::T1),
        AsmToken::Reg(Register::T2),
        AsmToken::Reg(Register::T3),
        AsmToken::Reg(Register::S0),
        AsmToken::Reg(Register::S1),
        AsmToken::Reg(Register::S2),
        AsmToken::Reg(Register::S3),
        AsmToken::Reg(Register::S4),
        AsmToken::Reg(Register::S5),
        AsmToken::Reg(Register::S6),
        AsmToken::Reg(Register::A0),
        AsmToken::Reg(Register::A1),
        AsmToken::Reg(Register::A2),
        AsmToken::Reg(Register::A3),
        AsmToken::Eof,
    ];

    for t in toks.into_iter() {
        assert_eq!(l.next_token(), t);
    }
}

#[test]
fn get_pseudo_ops() {
    let input = r"
        .global .data .text .word .byte .tubias
        ";
    let mut l = Lexer::new(input);
    let toks = vec![
        AsmToken::PseudoOp(PseudoOps::Global),
        AsmToken::PseudoOp(PseudoOps::Data),
        AsmToken::PseudoOp(PseudoOps::Text),
        AsmToken::PseudoOp(PseudoOps::Word),
        AsmToken::PseudoOp(PseudoOps::Byte),
        AsmToken::Illegal,
        AsmToken::Eof,
    ];

    for i in toks.into_iter() {
        assert_eq!(l.next_token(), i);
    }
}

#[test]
fn get_identifier() {
    let input = r"tubias, tubias2, tubias3";
    let mut l = Lexer::new(input);
    let toks = vec![
        AsmToken::Label(String::from("tubias")),
        AsmToken::Comma,
        AsmToken::Label(String::from("tubias2")),
        AsmToken::Comma,
        AsmToken::Label(String::from("tubias3")),
        AsmToken::Eof,
    ];

    for t in toks.into_iter() {
        assert_eq!(l.next_token(), t);
    }
}

#[test]
fn get_numbers() {
    let input = "1234 -123";
    let mut l = Lexer::new(input);
    let toks = vec![
        AsmToken::Number(String::from("1234")),
        AsmToken::Number(String::from("-123")),
        AsmToken::Eof,
    ];

    for t in toks.into_iter() {
        assert_eq!(l.next_token(), t);
    }
}

#[test]
fn get_toks_with_ctx() {
    let input = r#"
add, tubias ; comment
add ra, t0 <- t1
read write"#;
    let mut l = Lexer::new(input);
    let toks = vec![
        TokWithCtx { tok: AsmToken::Opcode(Opcode::Add), cur_line: 2, cur_column: 1 },
        TokWithCtx { tok: AsmToken::Comma, cur_line: 2, cur_column: 4 },
        TokWithCtx { tok: AsmToken::Label(String::from("tubias")), cur_line: 2, cur_column: 6 },
        TokWithCtx { tok: AsmToken::Opcode(Opcode::Add), cur_line: 3, cur_column: 1 },
        TokWithCtx { tok: AsmToken::Reg(Register::Ra), cur_line: 3, cur_column: 5 },
        TokWithCtx { tok: AsmToken::Comma, cur_line: 3, cur_column: 7 },
        TokWithCtx { tok: AsmToken::Reg(Register::T0), cur_line: 3, cur_column: 9 },
        TokWithCtx { tok: AsmToken::Assign, cur_line: 3, cur_column: 12 },
        TokWithCtx { tok: AsmToken::Reg(Register::T1), cur_line: 3, cur_column: 15 },
        TokWithCtx { tok: AsmToken::Opcode(Opcode::Read), cur_line: 4, cur_column: 1 },
        TokWithCtx { tok: AsmToken::Opcode(Opcode::Write), cur_line: 4, cur_column: 6 },
    ];

    for i in toks.into_iter() {
        assert_eq!(l.next_with_ctx(), i);
    }
}
