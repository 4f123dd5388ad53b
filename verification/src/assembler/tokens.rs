//! The token alphabet of the assembly language: registers, opcodes,
//! pseudo-operations, punctuation, and the classifier that turns a
//! scanned word into its token.

use vstd::prelude::*;

verus! {

/// A token together with the line and column it started at.
#[derive(Debug, PartialEq, Clone)]
pub struct TokWithCtx {
    pub tok: AsmToken,
    pub cur_line: usize,
    pub cur_column: usize,
}

impl TokWithCtx {
    pub fn new(tok: AsmToken, cur_line: usize, cur_column: usize) -> (r: TokWithCtx)
        ensures
            r == (TokWithCtx { tok, cur_line, cur_column }),
    {
        TokWithCtx { tok, cur_line, cur_column }
    }
}

/// The registers the assembly syntax can name.
#[derive(Debug, PartialEq, Eq, Structural, Clone, Copy)]
pub enum Register {
    Mar,
    Mdr,
    Mbr,
    Mbru,
    Mbr2,
    Mbr2u,
    Pc,
    Cpp,
    Lv,
    Ra,
    T0,
    T1,
    T2,
    T3,
    S0,
    S1,
    S2,
    S3,
    S4,
    S5,
    S6,
    A0,
    A1,
    A2,
    A3,
}

/// The instruction mnemonics the lexer recognises.
#[derive(Debug, PartialEq, Eq, Structural, Clone, Copy)]
pub enum Opcode {
    Lui,
    Addi,
    Subi,
    Slti,
    Andi,
    Ori,
    Add,
    Sub,
    Slt,
    And,
    Or,
    Not,
    Mov,
    Sll,
    Sla,
    Sra,
    Nop,
    Jal,
    Beq,
    Bne,
    Blt,
    Bgt,
    Mul,
    Read,
    Write,
    Halt,
}

/// The dot-directives.
#[derive(Debug, PartialEq, Eq, Structural, Clone, Copy)]
pub enum PseudoOps {
    Data,
    Word,
    Byte,
    Text,
    Global,
}

/// One token of the assembly language.
#[derive(Debug, PartialEq, Clone)]
pub enum AsmToken {
    Number(String),
    Label(String),
    Reg(Register),
    Opcode(Opcode),
    PseudoOp(PseudoOps),
    Comma,
    Colon,
    Illegal,
    Eof,
    Assign,
}

/// A token as specifications see it: text payloads as character
/// sequences.
pub enum AsmTokenView {
    Number(Seq<char>),
    Label(Seq<char>),
    Reg(Register),
    Opcode(Opcode),
    PseudoOp(PseudoOps),
    Comma,
    Colon,
    Illegal,
    Eof,
    Assign,
}

impl View for AsmToken {
    type V = AsmTokenView;

    open spec fn view(&self) -> AsmTokenView {
        match self {
            AsmToken::Number(s) => AsmTokenView::Number(s@),
            AsmToken::Label(s) => AsmTokenView::Label(s@),
            AsmToken::Reg(r) => AsmTokenView::Reg(*r),
            AsmToken::Opcode(o) => AsmTokenView::Opcode(*o),
            AsmToken::PseudoOp(p) => AsmTokenView::PseudoOp(*p),
            AsmToken::Comma => AsmTokenView::Comma,
            AsmToken::Colon => AsmTokenView::Colon,
            AsmToken::Illegal => AsmTokenView::Illegal,
            AsmToken::Eof => AsmTokenView::Eof,
            AsmToken::Assign => AsmTokenView::Assign,
        }
    }
}

/// The token a scanned word denotes: the five dot-directives, any other
/// word starting with a dot is illegal; then the mnemonics, then the
/// register names; every other word is a label.
pub open spec fn spec_name_to_tok(s: Seq<char>) -> AsmTokenView {
    if s == ".data"@ {
        AsmTokenView::PseudoOp(PseudoOps::Data)
    } else if s == ".word"@ {
        AsmTokenView::PseudoOp(PseudoOps::Word)
    } else if s == ".byte"@ {
        AsmTokenView::PseudoOp(PseudoOps::Byte)
    } else if s == ".text"@ {
        AsmTokenView::PseudoOp(PseudoOps::Text)
    } else if s == ".global"@ {
        AsmTokenView::PseudoOp(PseudoOps::Global)
    } else if s.len() > 0 && s[0] == '.' {
        AsmTokenView::Illegal
    } else if s == "lui"@ {
        AsmTokenView::Opcode(Opcode::Lui)
    } else if s == "addi"@ {
        AsmTokenView::Opcode(Opcode::Addi)
    } else if s == "subi"@ {
        AsmTokenView::Opcode(Opcode::Subi)
    } else if s == "slti"@ {
        AsmTokenView::Opcode(Opcode::Slti)
    } else if s == "andi"@ {
        AsmTokenView::Opcode(Opcode::Andi)
    } else if s == "ori"@ {
        AsmTokenView::Opcode(Opcode::Ori)
    } else if s == "add"@ {
        AsmTokenView::Opcode(Opcode::Add)
    } else if s == "sub"@ {
        AsmTokenView::Opcode(Opcode::Sub)
    } else if s == "slt"@ {
        AsmTokenView::Opcode(Opcode::Slt)
    } else if s == "and"@ {
        AsmTokenView::Opcode(Opcode::And)
    } else if s == "or"@ {
        AsmTokenView::Opcode(Opcode::Or)
    } else if s == "not"@ {
        AsmTokenView::Opcode(Opcode::Not)
    } else if s == "mov"@ {
        AsmTokenView::Opcode(Opcode::Mov)
    } else if s == "sll"@ {
        AsmTokenView::Opcode(Opcode::Sll)
    } else if s == "sra"@ {
        AsmTokenView::Opcode(Opcode::Sra)
    } else if s == "sla"@ {
        AsmTokenView::Opcode(Opcode::Sla)
    } else if s == "nop"@ {
        AsmTokenView::Opcode(Opcode::Nop)
    } else if s == "jal"@ {
        AsmTokenView::Opcode(Opcode::Jal)
    } else if s == "beq"@ {
        AsmTokenView::Opcode(Opcode::Beq)
    } else if s == "bne"@ {
        AsmTokenView::Opcode(Opcode::Bne)
    } else if s == "blt"@ {
        AsmTokenView::Opcode(Opcode::Blt)
    } else if s == "bgt"@ {
        AsmTokenView::Opcode(Opcode::Bgt)
    } else if s == "mul"@ {
        AsmTokenView::Opcode(Opcode::Mul)
    } else if s == "halt"@ {
        AsmTokenView::Opcode(Opcode::Halt)
    } else if s == "read"@ {
        AsmTokenView::Opcode(Opcode::Read)
    } else if s == "write"@ {
        AsmTokenView::Opcode(Opcode::Write)
    } else if s == "mar"@ {
        AsmTokenView::Reg(Register::Mar)
    } else if s == "mdr"@ {
        AsmTokenView::Reg(Register::Mdr)
    } else if s == "pc"@ {
        AsmTokenView::Reg(Register::Pc)
    } else if s == "mbr"@ {
        AsmTokenView::Reg(Register::Mbr)
    } else if s == "mbru"@ {
        AsmTokenView::Reg(Register::Mbru)
    } else if s == "mbr2"@ {
        AsmTokenView::Reg(Register::Mbr2)
    } else if s == "mbr2u"@ {
        AsmTokenView::Reg(Register::Mbr2u)
    } else if s == "cpp"@ {
        AsmTokenView::Reg(Register::Cpp)
    } else if s == "lv"@ {
        AsmTokenView::Reg(Register::Lv)
    } else if s == "ra"@ {
        AsmTokenView::Reg(Register::Ra)
    } else if s == "t0"@ {
        AsmTokenView::Reg(Register::T0)
    } else if s == "t1"@ {
        AsmTokenView::Reg(Register::T1)
    } else if s == "t2"@ {
        AsmTokenView::Reg(Register::T2)
    } else if s == "t3"@ {
        AsmTokenView::Reg(Register::T3)
    } else if s == "s0"@ {
        AsmTokenView::Reg(Register::S0)
    } else if s == "s1"@ {
        AsmTokenView::Reg(Register::S1)
    } else if s == "s2"@ {
        AsmTokenView::Reg(Register::S2)
    } else if s == "s3"@ {
        AsmTokenView::Reg(Register::S3)
    } else if s == "s4"@ {
        AsmTokenView::Reg(Register::S4)
    } else if s == "s5"@ {
        AsmTokenView::Reg(Register::S5)
    } else if s == "s6"@ {
        AsmTokenView::Reg(Register::S6)
    } else if s == "a0"@ {
        AsmTokenView::Reg(Register::A0)
    } else if s == "a1"@ {
        AsmTokenView::Reg(Register::A1)
    } else if s == "a2"@ {
        AsmTokenView::Reg(Register::A2)
    } else if s == "a3"@ {
        AsmTokenView::Reg(Register::A3)
    } else {
        AsmTokenView::Label(s)
    }
}

/// Whether two string slices hold the same characters.
fn str_eq(a: &str, b: &str) -> (r: bool)
    ensures
        r == (a@ == b@),
{
    let sa: String = a.to_owned();
    let sb: String = b.to_owned();
    sa == sb
}

impl AsmToken {
    /// Classify one scanned word; see [`spec_name_to_tok`].
    pub fn name_to_tok(input: &str) -> (r: AsmToken)
        ensures
            r@ == spec_name_to_tok(input@),
    {
        if str_eq(input, ".data") {
            AsmToken::PseudoOp(PseudoOps::Data)
        } else if str_eq(input, ".word") {
            AsmToken::PseudoOp(PseudoOps::Word)
        } else if str_eq(input, ".byte") {
            AsmToken::PseudoOp(PseudoOps::Byte)
        } else if str_eq(input, ".text") {
            AsmToken::PseudoOp(PseudoOps::Text)
        } else if str_eq(input, ".global") {
            AsmToken::PseudoOp(PseudoOps::Global)
        } else if input.unicode_len() > 0 && input.get_char(0) == '.' {
            AsmToken::Illegal
        } else if str_eq(input, "lui") {
            AsmToken::Opcode(Opcode::Lui)
        } else if str_eq(input, "addi") {
            AsmToken::Opcode(Opcode::Addi)
        } else if str_eq(input, "subi") {
            AsmToken::Opcode(Opcode::Subi)
        } else if str_eq(input, "slti") {
            AsmToken::Opcode(Opcode::Slti)
        } else if str_eq(input, "andi") {
            AsmToken::Opcode(Opcode::Andi)
        } else if str_eq(input, "ori") {
            AsmToken::Opcode(Opcode::Ori)
        } else if str_eq(input, "add") {
            AsmToken::Opcode(Opcode::Add)
        } else if str_eq(input, "sub") {
            AsmToken::Opcode(Opcode::Sub)
        } else if str_eq(input, "slt") {
            AsmToken::Opcode(Opcode::Slt)
        } else if str_eq(input, "and") {
            AsmToken::Opcode(Opcode::And)
        } else if str_eq(input, "or") {
            AsmToken::Opcode(Opcode::Or)
        } else if str_eq(input, "not") {
            AsmToken::Opcode(Opcode::Not)
        } else if str_eq(input, "mov") {
            AsmToken::Opcode(Opcode::Mov)
        } else if str_eq(input, "sll") {
            AsmToken::Opcode(Opcode::Sll)
        } else if str_eq(input, "sra") {
            AsmToken::Opcode(Opcode::Sra)
        } else if str_eq(input, "sla") {
            AsmToken::Opcode(Opcode::Sla)
        } else if str_eq(input, "nop") {
            AsmToken::Opcode(Opcode::Nop)
        } else if str_eq(input, "jal") {
            AsmToken::Opcode(Opcode::Jal)
        } else if str_eq(input, "beq") {
            AsmToken::Opcode(Opcode::Beq)
        } else if str_eq(input, "bne") {
            AsmToken::Opcode(Opcode::Bne)
        } else if str_eq(input, "blt") {
            AsmToken::Opcode(Opcode::Blt)
        } else if str_eq(input, "bgt") {
            AsmToken::Opcode(Opcode::Bgt)
        } else if str_eq(input, "mul") {
            AsmToken::Opcode(Opcode::Mul)
        } else if str_eq(input, "halt") {
            AsmToken::Opcode(Opcode::Halt)
        } else if str_eq(input, "read") {
            AsmToken::Opcode(Opcode::Read)
        } else if str_eq(input, "write") {
            AsmToken::Opcode(Opcode::Write)
        } else if str_eq(input, "mar") {
            AsmToken::Reg(Register::Mar)
        } else if str_eq(input, "mdr") {
            AsmToken::Reg(Register::Mdr)
        } else if str_eq(input, "pc") {
            AsmToken::Reg(Register::Pc)
        } else if str_eq(input, "mbr") {
            AsmToken::Reg(Register::Mbr)
        } else if str_eq(input, "mbru") {
            AsmToken::Reg(Register::Mbru)
        } else if str_eq(input, "mbr2") {
            AsmToken::Reg(Register::Mbr2)
        } else if str_eq(input, "mbr2u") {
            AsmToken::Reg(Register::Mbr2u)
        } else if str_eq(input, "cpp") {
            AsmToken::Reg(Register::Cpp)
        } else if str_eq(input, "lv") {
            AsmToken::Reg(Register::Lv)
        } else if str_eq(input, "ra") {
            AsmToken::Reg(Register::Ra)
        } else if str_eq(input, "t0") {
            AsmToken::Reg(Register::T0)
        } else if str_eq(input, "t1") {
            AsmToken::Reg(Register::T1)
        } else if str_eq(input, "t2") {
            AsmToken::Reg(Register::T2)
        } else if str_eq(input, "t3") {
            AsmToken::Reg(Register::T3)
        } else if str_eq(input, "s0") {
            AsmToken::Reg(Register::S0)
        } else if str_eq(input, "s1") {
            AsmToken::Reg(Register::S1)
        } else if str_eq(input, "s2") {
            AsmToken::Reg(Register::S2)
        } else if str_eq(input, "s3") {
            AsmToken::Reg(Register::S3)
        } else if str_eq(input, "s4") {
            AsmToken::Reg(Register::S4)
        } else if str_eq(input, "s5") {
            AsmToken::Reg(Register::S5)
        } else if str_eq(input, "s6") {
            AsmToken::Reg(Register::S6)
        } else if str_eq(input, "a0") {
            AsmToken::Reg(Register::A0)
        } else if str_eq(input, "a1") {
            AsmToken::Reg(Register::A1)
        } else if str_eq(input, "a2") {
            AsmToken::Reg(Register::A2)
        } else if str_eq(input, "a3") {
            AsmToken::Reg(Register::A3)
        } else {
            AsmToken::Label(input.to_owned())
        }
    }
}

} // verus!
