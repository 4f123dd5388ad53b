//! The parser for the assembly syntax: a two-token window over the
//! lexer's output, recursive-descent section and instruction parsing,
//! and error recovery that collects a list of errors alongside the
//! best-effort program.

use crate::assembler::evaluator::{a_codeable, all_c_codeable, b_codeable, c_codeable};
use crate::assembler::sections::{
    BranchOp, DataKind, DataWrited, DoubleOperandOpcode, ImmediateOrLabel, Instruction,
    NoOperandOpcode, Sections, SingleOperandOpcode, TextSegment, Value,
};
use crate::assembler::tokens::{AsmToken, AsmTokenView, Opcode, PseudoOps, Register, TokWithCtx};
use vstd::prelude::*;

verus! {

/// What the parser can reject: an unexpected or ill-shaped token, a
/// directive outside a section, a number out of range, or a register on
/// a bus it is not wired to.
#[derive(Debug, PartialEq, Clone)]
pub enum ParserError {
    UnexpectedToken { tok: AsmToken, cur_line: usize, cur_column: usize },
    ExpectedToken { expected: AsmToken, found: AsmToken, cur_line: usize, cur_column: usize },
    ExpectedRegister { found: AsmToken, cur_line: usize, cur_column: usize },
    ExpectedOpcode { found: AsmToken, cur_line: usize, cur_column: usize },
    ExpectedPseudoOp { found: AsmToken, cur_line: usize, cur_column: usize },
    ExpectedLabel { found: AsmToken, cur_line: usize, cur_column: usize },
    ExpectedBranchOp { found: Opcode, cur_line: usize, cur_column: usize },
    ExpectedByteOrWordType { found: AsmToken, cur_line: usize, cur_column: usize },
    ExpectedNumber { found: AsmToken, cur_line: usize, cur_column: usize },
    ExpectedToBeInSection { found: PseudoOps, cur_line: usize, cur_column: usize },
    RegisterCannotBeUsedInABus { found: Register, cur_line: usize, cur_column: usize },
    RegisterCannotBeUsedInBBus { found: Register, cur_line: usize, cur_column: usize },
    RegisterCannotBeUsedInCBus { found: Register, cur_line: usize, cur_column: usize },
    OnlyAcceptsImmediateOrLabel { found: AsmToken, cur_line: usize, cur_column: usize },
    InvalidNumber { found: String, cur_line: usize, cur_column: usize },
}

/// The parser's result: the sections it understood and the errors it
/// collected along the way.
#[derive(Debug, Default)]
pub struct Program {
    pub sections: Vec<Sections>,
    pub errors: Vec<ParserError>,
}

/// The numeric value of a run of decimal digits, most significant
/// first.
pub open spec fn digits_value(s: Seq<char>) -> int
    decreases s.len(),
{
    if s.len() == 0 {
        0
    } else {
        digits_value(s.drop_last()) * 10 + (s.last() as int - 48)
    }
}

/// Whether every character is a decimal digit.
pub open spec fn all_digits(s: Seq<char>) -> bool {
    forall|i: int| 0 <= i < s.len() ==> 48 <= (#[trigger] s[i]) as int <= 57
}

/// The `u8` a number token denotes: a nonempty run of digits whose
/// value fits, and nothing else.
pub open spec fn spec_parse_u8(s: Seq<char>) -> Option<u8> {
    if s.len() > 0 && all_digits(s) && digits_value(s) <= 255 {
        Some(digits_value(s) as u8)
    } else {
        None
    }
}

/// The `i32` a number token denotes: an optional leading minus, then a
/// nonempty run of digits whose value fits.
pub open spec fn spec_parse_i32(s: Seq<char>) -> Option<i32> {
    if s.len() > 0 && s[0] == '-' {
        let d = s.skip(1);
        if d.len() > 0 && all_digits(d) && digits_value(d) <= 0x80000000 {
            Some((-digits_value(d)) as i32)
        } else {
            None
        }
    } else {
        if s.len() > 0 && all_digits(s) && digits_value(s) <= 0x7fffffff {
            Some(digits_value(s) as i32)
        } else {
            None
        }
    }
}

proof fn lemma_digits_nonneg(s: Seq<char>)
    requires
        all_digits(s),
    ensures
        digits_value(s) >= 0,
    decreases s.len(),
{
    if s.len() > 0 {
        assert(all_digits(s.drop_last())) by {
            assert(forall|i: int|
                0 <= i < s.drop_last().len() ==> s.drop_last()[i] == #[trigger] s[i]);
        }
        lemma_digits_nonneg(s.drop_last());
    }
}

proof fn lemma_digits_prefix(s: Seq<char>, i: int)
    requires
        all_digits(s),
        0 <= i <= s.len(),
    ensures
        digits_value(s) >= digits_value(s.take(i)),
    decreases s.len() - i,
{
    if i < s.len() {
        lemma_digits_prefix(s, i + 1);
        assert(s.take(i + 1).drop_last() =~= s.take(i));
        assert(all_digits(s.take(i))) by {
            assert(forall|j: int| 0 <= j < i ==> s.take(i)[j] == #[trigger] s[j]);
        }
        lemma_digits_nonneg(s.take(i));
        assert(digits_value(s.take(i + 1)) == digits_value(s.take(i)) * 10 + (s[i] as int - 48));
    } else {
        assert(s.take(i) =~= s);
    }
}

/// Read a number token as a `u8`.
pub fn parse_u8(s: &str) -> (r: Option<u8>)
    ensures
        r == spec_parse_u8(s@),
{
    let n: usize = s.unicode_len();
    if n == 0 {
        return None;
    }
    let mut acc: u32 = 0;
    let mut i: usize = 0;
    proof {
        assert(s@.take(0) =~= Seq::<char>::empty());
    }
    while i < n
        invariant
            i <= n,
            n == s@.len(),
            all_digits(s@.take(i as int)),
            acc == digits_value(s@.take(i as int)),
            acc <= 255,
        decreases n - i,
    {
        let c: char = s.get_char(i);
        let u: u32 = c as u32;
        if !(48 <= u && u <= 57) {
            assert(!all_digits(s@));
            return None;
        }
        proof {
            assert(s@.take(i + 1).drop_last() =~= s@.take(i as int));
            assert(all_digits(s@.take(i + 1))) by {
                assert(forall|j: int|
                    0 <= j < i + 1 ==> s@.take(i + 1)[j] == #[trigger] s@[j]);
            }
        }
        acc = acc * 10 + (u - 48);
        if acc > 255 {
            proof {
                if all_digits(s@) {
                    lemma_digits_prefix(s@, i + 1);
                    assert(s@.take(s@.len() as int) =~= s@);
                }
            }
            return None;
        }
        i = i + 1;
    }
    proof {
        assert(s@.take(n as int) =~= s@);
    }
    Some(acc as u8)
}

/// Read a run of digits as a value, giving up past `limit`.
fn parse_digits(s: &str, from: usize, limit: u64) -> (r: Option<u64>)
    requires
        from <= s@.len(),
        limit <= 0x80000000,
    ensures
        ({
            let d = s@.skip(from as int);
            match r {
                Some(v) => d.len() > 0 && all_digits(d) && digits_value(d) == v && v <= limit,
                None => !(d.len() > 0 && all_digits(d) && digits_value(d) <= limit),
            }
        }),
{
    let ghost d: Seq<char> = s@.skip(from as int);
    let n: usize = s.unicode_len();
    if from == n {
        proof {
            assert(d.len() == 0);
        }
        return None;
    }
    let mut acc: u64 = 0;
    let mut i: usize = from;
    proof {
        assert(d.take(0) =~= Seq::<char>::empty());
    }
    while i < n
        invariant
            from <= i <= n,
            n == s@.len(),
            d == s@.skip(from as int),
            limit <= 0x80000000,
            all_digits(d.take(i - from)),
            acc == digits_value(d.take(i - from)),
            acc <= limit,
        decreases n - i,
    {
        let c: char = s.get_char(i);
        let u: u32 = c as u32;
        proof {
            assert(d[i - from] == s@[i as int]);
        }
        if !(48 <= u && u <= 57) {
            assert(!all_digits(d));
            return None;
        }
        proof {
            assert(d.take(i - from + 1).drop_last() =~= d.take(i - from));
            assert(all_digits(d.take(i - from + 1))) by {
                assert(forall|j: int|
                    0 <= j < i - from + 1 ==> d.take(i - from + 1)[j] == #[trigger] d[j]);
            }
        }
        acc = acc * 10 + ((u - 48) as u64);
        if acc > limit {
            proof {
                if all_digits(d) {
                    lemma_digits_prefix(d, i - from + 1);
                    assert(d.take(d.len() as int) =~= d);
                }
            }
            return None;
        }
        i = i + 1;
    }
    proof {
        assert(d.take(n - from) =~= d);
    }
    Some(acc)
}

/// Read a number token as an `i32`.
pub fn parse_i32(s: &str) -> (r: Option<i32>)
    ensures
        r == spec_parse_i32(s@),
{
    let n: usize = s.unicode_len();
    if n == 0 {
        return None;
    }
    if s.get_char(0) == '-' {
        match parse_digits(s, 1, 0x80000000) {
            Some(v) => Some(#[verifier::truncate] ((-(v as i64)) as i32)),
            None => None,
        }
    } else {
        match parse_digits(s, 0, 0x7fffffff) {
            Some(v) => {
                proof {
                    assert(s@.skip(0) =~= s@);
                }
                Some(v as i32)
            },
            None => None,
        }
    }
}

/// A copy of a token, field for field.
fn clone_tok(t: &AsmToken) -> (r: AsmToken)
    ensures
        r == *t,
{
    match t {
        AsmToken::Number(x) => AsmToken::Number(x.clone()),
        AsmToken::Label(x) => AsmToken::Label(x.clone()),
        AsmToken::Reg(x) => AsmToken::Reg(*x),
        AsmToken::Opcode(x) => AsmToken::Opcode(*x),
        AsmToken::PseudoOp(x) => AsmToken::PseudoOp(*x),
        AsmToken::Comma => AsmToken::Comma,
        AsmToken::Colon => AsmToken::Colon,
        AsmToken::Illegal => AsmToken::Illegal,
        AsmToken::Eof => AsmToken::Eof,
        AsmToken::Assign => AsmToken::Assign,
    }
}

/// Whether two tokens are of the same shape, payloads aside.
pub open spec fn same_tok_kind(a: AsmTokenView, b: AsmTokenView) -> bool {
    match (a, b) {
        (AsmTokenView::Number(_), AsmTokenView::Number(_)) => true,
        (AsmTokenView::Label(_), AsmTokenView::Label(_)) => true,
        (AsmTokenView::Reg(_), AsmTokenView::Reg(_)) => true,
        (AsmTokenView::Opcode(_), AsmTokenView::Opcode(_)) => true,
        (AsmTokenView::PseudoOp(_), AsmTokenView::PseudoOp(_)) => true,
        (AsmTokenView::Comma, AsmTokenView::Comma) => true,
        (AsmTokenView::Colon, AsmTokenView::Colon) => true,
        (AsmTokenView::Illegal, AsmTokenView::Illegal) => true,
        (AsmTokenView::Eof, AsmTokenView::Eof) => true,
        (AsmTokenView::Assign, AsmTokenView::Assign) => true,
        _ => false,
    }
}

fn tok_kind_eq(a: &AsmToken, b: &AsmToken) -> (r: bool)
    ensures
        r == same_tok_kind(a@, b@),
{
    match (a, b) {
        (AsmToken::Number(_), AsmToken::Number(_)) => true,
        (AsmToken::Label(_), AsmToken::Label(_)) => true,
        (AsmToken::Reg(_), AsmToken::Reg(_)) => true,
        (AsmToken::Opcode(_), AsmToken::Opcode(_)) => true,
        (AsmToken::PseudoOp(_), AsmToken::PseudoOp(_)) => true,
        (AsmToken::Comma, AsmToken::Comma) => true,
        (AsmToken::Colon, AsmToken::Colon) => true,
        (AsmToken::Illegal, AsmToken::Illegal) => true,
        (AsmToken::Eof, AsmToken::Eof) => true,
        (AsmToken::Assign, AsmToken::Assign) => true,
        _ => false,
    }
}

/// The recursive-descent parser: a two-token window over the token
/// stream and the position bookkeeping of the current token.
pub struct Parser {
    pub toks: Vec<TokWithCtx>,
    pub cur_tok: AsmToken,
    pub peek_tok: AsmToken,
    pub idx: usize,
    pub cur_line: usize,
    pub cur_column: usize,
}

impl Parser {
    /// The window's index stays on a token of the stream, which is
    /// never empty (the lexer always ends it with `Eof`).
    pub open spec fn wf(&self) -> bool {
        &&& self.toks@.len() >= 1
        &&& self.idx < self.toks@.len()
    }

    /// Start the window on the first token. The stream must hold at
    /// least one token; the lexer's output always does.
    pub fn new(toks: Vec<TokWithCtx>) -> (r: Parser)
        requires
            toks@.len() >= 1,
        ensures
            r.wf(),
            r.toks@ == toks@,
    {
        let mut p = Parser {
            toks,
            cur_tok: AsmToken::Eof,
            peek_tok: AsmToken::Eof,
            idx: 0,
            cur_line: 0,
            cur_column: 0,
        };
        p.next_token();
        p.next_token();
        p
    }

    /// Slide the window one token: the peeked token becomes current,
    /// and the stream supplies the next peek, or `Eof` past its end.
    fn next_token(&mut self)
        requires
            old(self).wf(),
        ensures
            final(self).wf(),
            final(self).toks@ == old(self).toks@,
            final(self).cur_tok == old(self).peek_tok,
            old(self).idx + 1 >= old(self).toks@.len() ==> final(self).idx == old(self).idx
                && final(self).peek_tok == AsmToken::Eof,
            old(self).idx + 1 < old(self).toks@.len() ==> final(self).idx == old(self).idx + 1
                && final(self).peek_tok == old(self).toks@[old(self).idx as int].tok,
    {
        self.cur_tok = clone_tok(&self.peek_tok);
        self.cur_line = self.toks[self.idx].cur_line;
        self.cur_column = self.toks[self.idx].cur_column;
        if self.idx >= self.toks.len() - 1 {
            self.peek_tok = AsmToken::Eof;
        } else {
            self.peek_tok = clone_tok(&self.toks[self.idx].tok);
            self.idx = self.idx + 1;
        }
    }

    /// Advance past the peeked token when it has the expected shape;
    /// otherwise report what was found.
    fn expect_peek(&mut self, expected: AsmToken) -> (r: Result<(), ParserError>)
        requires
            old(self).wf(),
        ensures
            final(self).wf(),
            final(self).toks@ == old(self).toks@,
            r is Ok <==> same_tok_kind(old(self).peek_tok@, expected@),
            r is Ok ==> final(self).cur_tok == old(self).peek_tok,
            r is Err ==> *final(self) == *old(self),
    {
        if tok_kind_eq(&self.peek_tok, &expected) {
            self.next_token();
            Ok(())
        } else {
            Err(
                ParserError::ExpectedToken {
                    expected,
                    found: clone_tok(&self.peek_tok),
                    cur_line: self.cur_line,
                    cur_column: self.cur_column,
                },
            )
        }
    }

    fn curr_token_is(&self, expected: &AsmToken) -> (r: bool)
        ensures
            r == same_tok_kind(self.cur_tok@, expected@),
    {
        tok_kind_eq(&self.cur_tok, expected)
    }

    fn peek_token_is(&self, expected: &AsmToken) -> (r: bool)
        ensures
            r == same_tok_kind(self.peek_tok@, expected@),
    {
        tok_kind_eq(&self.peek_tok, expected)
    }

    /// The current token's label text.
    fn get_label(&self) -> (r: Result<String, ParserError>)
        ensures
            r is Ok <==> self.cur_tok@ is Label,
            (r matches Ok(l) ==> AsmToken::Label(l)@ == self.cur_tok@),
    {
        match &self.cur_tok {
            AsmToken::Label(l) => Ok(l.clone()),
            _ => Err(
                ParserError::ExpectedLabel {
                    found: clone_tok(&self.cur_tok),
                    cur_line: self.cur_line,
                    cur_column: self.cur_column,
                },
            ),
        }
    }

    /// The current token's number text.
    fn get_number(&self) -> (r: Result<String, ParserError>)
        ensures
            r is Ok <==> self.cur_tok@ is Number,
            (r matches Ok(n) ==> AsmToken::Number(n)@ == self.cur_tok@),
    {
        match &self.cur_tok {
            AsmToken::Number(n) => Ok(n.clone()),
            _ => Err(
                ParserError::ExpectedNumber {
                    found: clone_tok(&self.cur_tok),
                    cur_line: self.cur_line,
                    cur_column: self.cur_column,
                },
            ),
        }
    }

    /// The current token's register.
    fn get_register(&self) -> (r: Result<Register, ParserError>)
        ensures
            r is Ok <==> self.cur_tok@ is Reg,
            (r matches Ok(reg) ==> self.cur_tok@ == AsmTokenView::Reg(reg)),
    {
        match &self.cur_tok {
            AsmToken::Reg(reg) => Ok(*reg),
            _ => Err(
                ParserError::ExpectedRegister {
                    found: clone_tok(&self.cur_tok),
                    cur_line: self.cur_line,
                    cur_column: self.cur_column,
                },
            ),
        }
    }

    /// The current token's mnemonic.
    fn get_opcode(&self) -> (r: Result<Opcode, ParserError>)
        ensures
            r is Ok <==> self.cur_tok@ is Opcode,
            (r matches Ok(op) ==> self.cur_tok@ == AsmTokenView::Opcode(op)),
    {
        match &self.cur_tok {
            AsmToken::Opcode(op) => Ok(*op),
            _ => Err(
                ParserError::ExpectedOpcode {
                    found: clone_tok(&self.cur_tok),
                    cur_line: self.cur_line,
                    cur_column: self.cur_column,
                },
            ),
        }
    }

    /// The branch that a mnemonic names, if it names one.
    fn op_to_branch_op(&self, op: Opcode) -> (r: Result<BranchOp, ParserError>)
        ensures
            r is Ok <==> (op == Opcode::Beq || op == Opcode::Bne || op == Opcode::Blt || op
                == Opcode::Bgt),
            r == Ok::<BranchOp, ParserError>(BranchOp::Beq) <==> op == Opcode::Beq,
            r == Ok::<BranchOp, ParserError>(BranchOp::Bne) <==> op == Opcode::Bne,
            r == Ok::<BranchOp, ParserError>(BranchOp::Blt) <==> op == Opcode::Blt,
            r == Ok::<BranchOp, ParserError>(BranchOp::Bgt) <==> op == Opcode::Bgt,
    {
        match op {
            Opcode::Beq => Ok(BranchOp::Beq),
            Opcode::Bne => Ok(BranchOp::Bne),
            Opcode::Blt => Ok(BranchOp::Blt),
            Opcode::Bgt => Ok(BranchOp::Bgt),
            _ => Err(
                ParserError::ExpectedBranchOp {
                    found: op,
                    cur_line: self.cur_line,
                    cur_column: self.cur_column,
                },
            ),
        }
    }

    /// The current token's directive.
    fn get_pseudo_op(&self) -> (r: Result<PseudoOps, ParserError>)
        ensures
            r is Ok <==> self.cur_tok@ is PseudoOp,
            (r matches Ok(p) ==> self.cur_tok@ == AsmTokenView::PseudoOp(p)),
    {
        match &self.cur_tok {
            AsmToken::PseudoOp(p) => Ok(*p),
            _ => Err(
                ParserError::ExpectedPseudoOp {
                    found: clone_tok(&self.cur_tok),
                    cur_line: self.cur_line,
                    cur_column: self.cur_column,
                },
            ),
        }
    }

    /// Reject a register that cannot drive the A bus.
    fn guard_a_bus(&self, reg: Register) -> (r: Result<Register, ParserError>)
        ensures
            r is Ok <==> a_codeable(reg),
            (r matches Ok(x) ==> x == reg),
    {
        match reg {
            Register::Mar => Err(
                ParserError::RegisterCannotBeUsedInABus {
                    found: reg,
                    cur_line: self.cur_line,
                    cur_column: self.cur_column,
                },
            ),
            _ => Ok(reg),
        }
    }

    /// Reject a register that cannot drive the B bus.
    fn guard_b_bus(&self, reg: Register) -> (r: Result<Register, ParserError>)
        ensures
            r is Ok <==> b_codeable(reg),
            (r matches Ok(x) ==> x == reg),
    {
        match reg {
            Register::Mar | Register::Mbr | Register::Mbr2 | Register::Pc | Register::Mbru
                | Register::Mbr2u => Err(
                ParserError::RegisterCannotBeUsedInBBus {
                    found: reg,
                    cur_line: self.cur_line,
                    cur_column: self.cur_column,
                },
            ),
            _ => Ok(reg),
        }
    }

    /// Reject a register that cannot be a C-bus destination.
    fn guard_c_bus(&self, reg: Register) -> (r: Result<Register, ParserError>)
        ensures
            r is Ok <==> c_codeable(reg),
            (r matches Ok(x) ==> x == reg),
    {
        match reg {
            Register::Cpp | Register::Mbr | Register::Mbr2 | Register::Mbru | Register::Mbr2u
                => Err(
                ParserError::RegisterCannotBeUsedInCBus {
                    found: reg,
                    cur_line: self.cur_line,
                    cur_column: self.cur_column,
                },
            ),
            _ => Ok(reg),
        }
    }
}


/// The bus constraints the parser's guards enforce on every
/// instruction it produces: destinations can take the C bus, the first
/// source can drive the A bus, and a register second source can drive
/// the B bus (the swapped routings of `Sub`, `Blt`, `Bne` and the
/// multiply macro are checked again at lowering time).
pub open spec fn parsed_bus_ok(inst: Instruction) -> bool {
    match inst {
        Instruction::DoubleOperand(d) => all_c_codeable(d.rd@) && a_codeable(d.rs1) && (match
            d.rs2 {
            Value::Reg(x) => b_codeable(x),
            _ => true,
        }),
        Instruction::SingleOperand(sgl) => all_c_codeable(sgl.rd@) && (match sgl.rs1 {
            Value::Reg(x) => a_codeable(x),
            _ => true,
        }),
        Instruction::Branch(b) => a_codeable(b.rs1) && b_codeable(b.rs2),
        Instruction::NoOperand(_) => true,
        Instruction::WriteInstruction(_, rd) => a_codeable(rd),
        Instruction::ReadInstruction(_, rds) => all_c_codeable(rds@),
        Instruction::Jal(_) => true,
    }
}

/// Whether every instruction of a block passes the parse-time bus
/// guards.
pub open spec fn insts_bus_ok(insts: Seq<Instruction>) -> bool {
    forall|k: int| 0 <= k < insts.len() ==> parsed_bus_ok(#[trigger] insts[k])
}

/// Whether a text segment's instructions all pass the parse-time bus
/// guards.
pub open spec fn seg_bus_ok(seg: TextSegment) -> bool {
    match seg {
        TextSegment::LabeledSection { label, instructions } => insts_bus_ok(instructions@),
        TextSegment::GlobalSection { label } => true,
    }
}

/// Whether a section's instructions all pass the parse-time bus guards.
pub open spec fn section_bus_ok(sec: Sections) -> bool {
    match sec {
        Sections::TextSection(t) => forall|j: int| 0 <= j < t@.len() ==> seg_bus_ok(
            #[trigger] t@[j],
        ),
        Sections::DataSection(_) => true,
    }
}

/// Whether every instruction of a program passes the parse-time bus
/// guards.
pub open spec fn program_bus_ok(sections: Seq<Sections>) -> bool {
    forall|i: int| 0 <= i < sections.len() ==> section_bus_ok(#[trigger] sections[i])
}

/// The instruction shape each mnemonic parses to.
pub open spec fn parsed_shape(op: Opcode, inst: Instruction) -> bool {
    match inst {
        Instruction::DoubleOperand(d) => match (op, d.opcode) {
            (Opcode::Add, DoubleOperandOpcode::Add) => true,
            (Opcode::Sub, DoubleOperandOpcode::Sub) => true,
            (Opcode::Mul, DoubleOperandOpcode::Mul) => true,
            (Opcode::And, DoubleOperandOpcode::And) => true,
            (Opcode::Or, DoubleOperandOpcode::Or) => true,
            (Opcode::Addi, DoubleOperandOpcode::Addi) => true,
            (Opcode::Andi, DoubleOperandOpcode::Andi) => true,
            (Opcode::Ori, DoubleOperandOpcode::Ori) => true,
            (Opcode::Subi, DoubleOperandOpcode::Subi) => true,
            _ => false,
        },
        Instruction::SingleOperand(sgl) => match (op, sgl.opcode) {
            (Opcode::Lui, SingleOperandOpcode::Lui) => true,
            (Opcode::Not, SingleOperandOpcode::Not) => true,
            (Opcode::Sll, SingleOperandOpcode::Sll) => true,
            (Opcode::Sra, SingleOperandOpcode::Sra) => true,
            (Opcode::Sla, SingleOperandOpcode::Sla) => true,
            (Opcode::Mov, SingleOperandOpcode::Mov) => true,
            _ => false,
        },
        Instruction::Branch(b) => match (op, b.opcode) {
            (Opcode::Beq, BranchOp::Beq) => true,
            (Opcode::Bne, BranchOp::Bne) => true,
            (Opcode::Blt, BranchOp::Blt) => true,
            (Opcode::Bgt, BranchOp::Bgt) => true,
            _ => false,
        },
        Instruction::NoOperand(n) => match (op, n) {
            (Opcode::Halt, NoOperandOpcode::Halt) => true,
            (Opcode::Nop, NoOperandOpcode::Nop) => true,
            _ => false,
        },
        Instruction::WriteInstruction(_, _) => op == Opcode::Write,
        Instruction::ReadInstruction(_, _) => op == Opcode::Read,
        Instruction::Jal(_) => op == Opcode::Jal,
    }
}

impl Parser {
    /// One data definition: `label: .word N` or `label: .byte N`.
    fn parse_data_to_write(&mut self) -> (r: Result<DataWrited, ParserError>)
        requires
            old(self).wf(),
        ensures
            final(self).wf(),
            final(self).toks@ == old(self).toks@,
    {
        let label: String = match self.get_label() {
            Ok(l) => l,
            Err(e) => {
                return Err(e);
            },
        };
        match self.expect_peek(AsmToken::Colon) {
            Ok(()) => {},
            Err(e) => {
                return Err(e);
            },
        }
        self.next_token();
        let op: PseudoOps = match self.get_pseudo_op() {
            Ok(p) => p,
            Err(e) => {
                return Err(e);
            },
        };
        match op {
            PseudoOps::Byte => {
                match self.expect_peek(AsmToken::Number(String::new())) {
                    Ok(()) => {},
                    Err(e) => {
                        return Err(e);
                    },
                }
                let number_str: String = match self.get_number() {
                    Ok(n) => n,
                    Err(e) => {
                        return Err(e);
                    },
                };
                match parse_u8(number_str.as_str()) {
                    Some(v) => Ok(Sections::new_data_writed(DataKind::Byte(v), label)),
                    None => Err(
                        ParserError::InvalidNumber {
                            found: number_str,
                            cur_line: self.cur_line,
                            cur_column: self.cur_column,
                        },
                    ),
                }
            },
            PseudoOps::Word => {
                match self.expect_peek(AsmToken::Number(String::new())) {
                    Ok(()) => {},
                    Err(e) => {
                        return Err(e);
                    },
                }
                let number_str: String = match self.get_number() {
                    Ok(n) => n,
                    Err(e) => {
                        return Err(e);
                    },
                };
                match parse_i32(number_str.as_str()) {
                    Some(v) => Ok(Sections::new_data_writed(DataKind::Word(v), label)),
                    None => Err(
                        ParserError::InvalidNumber {
                            found: number_str,
                            cur_line: self.cur_line,
                            cur_column: self.cur_column,
                        },
                    ),
                }
            },
            _ => Err(
                ParserError::ExpectedByteOrWordType {
                    found: clone_tok(&self.cur_tok),
                    cur_line: self.cur_line,
                    cur_column: self.cur_column,
                },
            ),
        }
    }

    /// The data definitions that follow a `.data` directive.
    #[verifier::loop_isolation(false)]
    fn parse_data_directive(&mut self) -> (r: Result<Sections, ParserError>)
        requires
            old(self).wf(),
        ensures
            final(self).wf(),
            final(self).toks@ == old(self).toks@,
            r matches Ok(sec) ==> section_bus_ok(sec),
    {
        let mut data: Vec<DataWrited> = Vec::new();
        let mut fuel: usize = self.toks.len();
        while fuel > 0 && self.peek_token_is(&AsmToken::Label(String::new()))
            invariant
                self.wf(),
                self.toks@ == old(self).toks@,
            decreases fuel,
        {
            fuel = fuel - 1;
            self.next_token();
            match self.parse_data_to_write() {
                Ok(d) => data.push(d),
                Err(e) => {
                    return Err(e);
                },
            }
        }
        Ok(Sections::new_data_section(data))
    }

    /// The comma-separated destination registers of an instruction;
    /// every one of them passes the C-bus guard.
    #[verifier::loop_isolation(false)]
    fn get_dest_regs(&mut self) -> (r: Result<Vec<Register>, ParserError>)
        requires
            old(self).wf(),
        ensures
            final(self).wf(),
            final(self).toks@ == old(self).toks@,
            r matches Ok(v) ==> all_c_codeable(v@),
    {
        let mut dest_regs: Vec<Register> = Vec::new();
        let first: Register = match self.get_register() {
            Ok(x) => x,
            Err(e) => {
                return Err(e);
            },
        };
        match self.guard_c_bus(first) {
            Ok(x) => dest_regs.push(x),
            Err(e) => {
                return Err(e);
            },
        }
        let mut fuel: usize = self.toks.len();
        while fuel > 0 && self.peek_token_is(&AsmToken::Comma)
            invariant
                self.wf(),
                self.toks@ == old(self).toks@,
                all_c_codeable(dest_regs@),
            decreases fuel,
        {
            fuel = fuel - 1;
            self.next_token();
            self.next_token();
            let next: Register = match self.get_register() {
                Ok(x) => x,
                Err(e) => {
                    return Err(e);
                },
            };
            match self.guard_c_bus(next) {
                Ok(x) => dest_regs.push(x),
                Err(e) => {
                    return Err(e);
                },
            }
        }
        Ok(dest_regs)
    }

    /// Destinations, the assignment arrow, and the first source
    /// register; the destinations pass the C-bus guard and the source
    /// the A-bus guard.
    fn parse_instruction_til_rs1(&mut self) -> (r: Result<(Vec<Register>, Register), ParserError>)
        requires
            old(self).wf(),
        ensures
            final(self).wf(),
            final(self).toks@ == old(self).toks@,
            r matches Ok(p) ==> (all_c_codeable(p.0@) && a_codeable(p.1)),
    {
        let dest_regs: Vec<Register> = match self.get_dest_regs() {
            Ok(x) => x,
            Err(e) => {
                return Err(e);
            },
        };
        match self.expect_peek(AsmToken::Assign) {
            Ok(()) => {},
            Err(e) => {
                return Err(e);
            },
        }
        self.next_token();
        let rs1: Register = match self.get_register() {
            Ok(x) => x,
            Err(e) => {
                return Err(e);
            },
        };
        match self.guard_a_bus(rs1) {
            Ok(x) => Ok((dest_regs, x)),
            Err(e) => Err(e),
        }
    }

    /// A register-register double-operand instruction.
    fn parse_double_rr(&mut self, dop: DoubleOperandOpcode) -> (r: Result<Instruction, ParserError>)
        requires
            old(self).wf(),
        ensures
            final(self).wf(),
            final(self).toks@ == old(self).toks@,
            r matches Ok(inst) ==> (inst matches Instruction::DoubleOperand(d) && d.opcode == dop
                && d.rs2 is Reg && parsed_bus_ok(inst)),
    {
        self.next_token();
        let (dest_regs, rs1) = match self.parse_instruction_til_rs1() {
            Ok(x) => x,
            Err(e) => {
                return Err(e);
            },
        };
        match self.expect_peek(AsmToken::Comma) {
            Ok(()) => {},
            Err(e) => {
                return Err(e);
            },
        }
        self.next_token();
        let reg2: Register = match self.get_register() {
            Ok(x) => x,
            Err(e) => {
                return Err(e);
            },
        };
        let rs2: Register = match self.guard_b_bus(reg2) {
            Ok(x) => x,
            Err(e) => {
                return Err(e);
            },
        };
        Ok(Instruction::new_double_operand_instruction(dop, dest_regs, rs1, Value::Reg(rs2)))
    }

    /// A register-immediate double-operand instruction.
    fn parse_double_ri(&mut self, dop: DoubleOperandOpcode) -> (r: Result<Instruction, ParserError>)
        requires
            old(self).wf(),
        ensures
            final(self).wf(),
            final(self).toks@ == old(self).toks@,
            r matches Ok(inst) ==> (inst matches Instruction::DoubleOperand(d) && d.opcode == dop
                && d.rs2 is Immediate && parsed_bus_ok(inst)),
    {
        self.next_token();
        let (dest_regs, rs1) = match self.parse_instruction_til_rs1() {
            Ok(x) => x,
            Err(e) => {
                return Err(e);
            },
        };
        match self.expect_peek(AsmToken::Comma) {
            Ok(()) => {},
            Err(e) => {
                return Err(e);
            },
        }
        self.next_token();
        let number_str: String = match self.get_number() {
            Ok(n) => n,
            Err(e) => {
                return Err(e);
            },
        };
        let immediate: u8 = match parse_u8(number_str.as_str()) {
            Some(v) => v,
            None => {
                return Err(
                    ParserError::InvalidNumber {
                        found: number_str,
                        cur_line: self.cur_line,
                        cur_column: self.cur_column,
                    },
                );
            },
        };
        Ok(
            Instruction::new_double_operand_instruction(
                dop,
                dest_regs,
                rs1,
                Value::Immediate(immediate),
            ),
        )
    }

    /// A single-operand instruction whose source is a register.
    fn parse_single_rr(&mut self, sop: SingleOperandOpcode) -> (r: Result<Instruction, ParserError>)
        requires
            old(self).wf(),
        ensures
            final(self).wf(),
            final(self).toks@ == old(self).toks@,
            r matches Ok(inst) ==> (inst matches Instruction::SingleOperand(sgl) && sgl.opcode
                == sop && sgl.rs1 is Reg && parsed_bus_ok(inst)),
    {
        self.next_token();
        let (dest_regs, rs1) = match self.parse_instruction_til_rs1() {
            Ok(x) => x,
            Err(e) => {
                return Err(e);
            },
        };
        Ok(Instruction::new_single_operand_instruction(sop, dest_regs, Value::Reg(rs1)))
    }

    /// A memory address operand: a number or a data label.
    fn parse_addr_operand(&mut self) -> (r: Result<ImmediateOrLabel, ParserError>)
        requires
            old(self).wf(),
        ensures
            final(self).wf(),
            final(self).toks@ == old(self).toks@,
            *final(self) == *old(self),
    {
        match &self.cur_tok {
            AsmToken::Number(n) => match parse_u8(n.as_str()) {
                Some(v) => Ok(ImmediateOrLabel::Immediate(v)),
                None => Err(
                    ParserError::InvalidNumber {
                        found: n.clone(),
                        cur_line: self.cur_line,
                        cur_column: self.cur_column,
                    },
                ),
            },
            AsmToken::Label(l) => Ok(ImmediateOrLabel::Label(l.clone())),
            _ => Err(
                ParserError::OnlyAcceptsImmediateOrLabel {
                    found: clone_tok(&self.cur_tok),
                    cur_line: self.cur_line,
                    cur_column: self.cur_column,
                },
            ),
        }
    }

    /// One instruction, dispatched on its mnemonic: the produced
    /// instruction mirrors the mnemonic's shape and its operands pass
    /// the bus guards of the section the grammar routes them to. `Slt`
    /// and `Slti` have no lowering and are rejected here.
    fn get_instruction(&mut self) -> (r: Result<Instruction, ParserError>)
        requires
            old(self).wf(),
        ensures
            final(self).wf(),
            final(self).toks@ == old(self).toks@,
            !(old(self).cur_tok@ is Opcode) ==> r is Err,
            r matches Ok(inst) ==> parsed_bus_ok(inst),
            r matches Ok(inst) ==> ({
                &&& old(self).cur_tok@ matches AsmTokenView::Opcode(op)
                &&& parsed_shape(op, inst)
            }),
    {
        let op: Opcode = match self.get_opcode() {
            Ok(o) => o,
            Err(e) => {
                return Err(e);
            },
        };
        match op {
            Opcode::Add => self.parse_double_rr(DoubleOperandOpcode::Add),
            Opcode::Sub => self.parse_double_rr(DoubleOperandOpcode::Sub),
            Opcode::Mul => self.parse_double_rr(DoubleOperandOpcode::Mul),
            Opcode::And => self.parse_double_rr(DoubleOperandOpcode::And),
            Opcode::Or => self.parse_double_rr(DoubleOperandOpcode::Or),
            Opcode::Addi => self.parse_double_ri(DoubleOperandOpcode::Addi),
            Opcode::Andi => self.parse_double_ri(DoubleOperandOpcode::Andi),
            Opcode::Ori => self.parse_double_ri(DoubleOperandOpcode::Ori),
            Opcode::Subi => self.parse_double_ri(DoubleOperandOpcode::Subi),
            Opcode::Lui => {
                self.next_token();
                let dest_regs: Vec<Register> = match self.get_dest_regs() {
                    Ok(x) => x,
                    Err(e) => {
                        return Err(e);
                    },
                };
                match self.expect_peek(AsmToken::Assign) {
                    Ok(()) => {},
                    Err(e) => {
                        return Err(e);
                    },
                }
                self.next_token();
                let number_str: String = match self.get_number() {
                    Ok(n) => n,
                    Err(e) => {
                        return Err(e);
                    },
                };
                let immediate: u8 = match parse_u8(number_str.as_str()) {
                    Some(v) => v,
                    None => {
                        return Err(
                            ParserError::InvalidNumber {
                                found: number_str,
                                cur_line: self.cur_line,
                                cur_column: self.cur_column,
                            },
                        );
                    },
                };
                Ok(
                    Instruction::new_single_operand_instruction(
                        SingleOperandOpcode::Lui,
                        dest_regs,
                        Value::Immediate(immediate),
                    ),
                )
            },
            Opcode::Not => self.parse_single_rr(SingleOperandOpcode::Not),
            Opcode::Sll => self.parse_single_rr(SingleOperandOpcode::Sll),
            Opcode::Sra => self.parse_single_rr(SingleOperandOpcode::Sra),
            Opcode::Sla => self.parse_single_rr(SingleOperandOpcode::Sla),
            Opcode::Mov => self.parse_single_rr(SingleOperandOpcode::Mov),
            Opcode::Beq | Opcode::Bne | Opcode::Blt | Opcode::Bgt => {
                self.next_token();
                let reg1: Register = match self.get_register() {
                    Ok(x) => x,
                    Err(e) => {
                        return Err(e);
                    },
                };
                let rs1: Register = match self.guard_a_bus(reg1) {
                    Ok(x) => x,
                    Err(e) => {
                        return Err(e);
                    },
                };
                match self.expect_peek(AsmToken::Comma) {
                    Ok(()) => {},
                    Err(e) => {
                        return Err(e);
                    },
                }
                self.next_token();
                let reg2: Register = match self.get_register() {
                    Ok(x) => x,
                    Err(e) => {
                        return Err(e);
                    },
                };
                let rs2: Register = match self.guard_b_bus(reg2) {
                    Ok(x) => x,
                    Err(e) => {
                        return Err(e);
                    },
                };
                match self.expect_peek(AsmToken::Comma) {
                    Ok(()) => {},
                    Err(e) => {
                        return Err(e);
                    },
                }
                self.next_token();
                let label: String = match self.get_label() {
                    Ok(l) => l,
                    Err(e) => {
                        return Err(e);
                    },
                };
                let bop: BranchOp = match self.op_to_branch_op(op) {
                    Ok(b) => b,
                    Err(e) => {
                        return Err(e);
                    },
                };
                Ok(Instruction::new_branch_instruction(bop, rs1, rs2, label))
            },
            Opcode::Jal => {
                self.next_token();
                match self.get_label() {
                    Ok(l) => Ok(Instruction::new_jal_instruction(l)),
                    Err(e) => Err(e),
                }
            },
            Opcode::Read => {
                self.next_token();
                let rds: Vec<Register> = match self.get_dest_regs() {
                    Ok(x) => x,
                    Err(e) => {
                        return Err(e);
                    },
                };
                match self.expect_peek(AsmToken::Assign) {
                    Ok(()) => {},
                    Err(e) => {
                        return Err(e);
                    },
                }
                self.next_token();
                match self.parse_addr_operand() {
                    Ok(addr) => Ok(Instruction::new_read_instruction(addr, rds)),
                    Err(e) => Err(e),
                }
            },
            Opcode::Write => {
                self.next_token();
                let addr: ImmediateOrLabel = match self.parse_addr_operand() {
                    Ok(a) => a,
                    Err(e) => {
                        return Err(e);
                    },
                };
                match self.expect_peek(AsmToken::Assign) {
                    Ok(()) => {},
                    Err(e) => {
                        return Err(e);
                    },
                }
                self.next_token();
                let reg: Register = match self.get_register() {
                    Ok(x) => x,
                    Err(e) => {
                        return Err(e);
                    },
                };
                match self.guard_a_bus(reg) {
                    Ok(rd) => Ok(Instruction::new_write_instruction(addr, rd)),
                    Err(e) => Err(e),
                }
            },
            Opcode::Halt => Ok(Instruction::new_no_operand_instruction(NoOperandOpcode::Halt)),
            Opcode::Nop => Ok(Instruction::new_no_operand_instruction(NoOperandOpcode::Nop)),
            Opcode::Slt | Opcode::Slti => Err(
                ParserError::UnexpectedToken {
                    tok: AsmToken::Opcode(op),
                    cur_line: self.cur_line,
                    cur_column: self.cur_column,
                },
            ),
        }
    }

    /// A labeled block: the label, its colon, and the instructions that
    /// follow, every one of them past the bus guards.
    #[verifier::loop_isolation(false)]
    fn parse_labeled_section(&mut self) -> (r: Result<TextSegment, ParserError>)
        requires
            old(self).wf(),
        ensures
            final(self).wf(),
            final(self).toks@ == old(self).toks@,
            r matches Ok(seg) ==> seg_bus_ok(seg),
    {
        let label: String = match self.get_label() {
            Ok(l) => l,
            Err(e) => {
                return Err(e);
            },
        };
        match self.expect_peek(AsmToken::Colon) {
            Ok(()) => {},
            Err(e) => {
                return Err(e);
            },
        }
        let mut ins: Vec<Instruction> = Vec::new();
        let mut fuel: usize = self.toks.len();
        while fuel > 0 && self.peek_token_is(&AsmToken::Opcode(Opcode::Add))
            invariant
                self.wf(),
                self.toks@ == old(self).toks@,
                insts_bus_ok(ins@),
            decreases fuel,
        {
            fuel = fuel - 1;
            self.next_token();
            match self.get_instruction() {
                Ok(i) => ins.push(i),
                Err(e) => {
                    return Err(e);
                },
            }
        }
        self.next_token();
        Ok(TextSegment::new_labeled_section(label, ins))
    }

    /// The segments that follow a `.text` directive: global
    /// declarations and labeled blocks.
    #[verifier::loop_isolation(false)]
    fn parse_text_directive(&mut self) -> (r: Result<Sections, ParserError>)
        requires
            old(self).wf(),
        ensures
            final(self).wf(),
            final(self).toks@ == old(self).toks@,
            r matches Ok(sec) ==> section_bus_ok(sec),
    {
        let mut data: Vec<TextSegment> = Vec::new();
        self.next_token();
        let mut fuel: usize = self.toks.len();
        while fuel > 0
            invariant
                self.wf(),
                self.toks@ == old(self).toks@,
                forall|j: int| 0 <= j < data@.len() ==> seg_bus_ok(#[trigger] data@[j]),
            decreases fuel,
        {
            fuel = fuel - 1;
            let is_global: bool = matches!(&self.cur_tok, AsmToken::PseudoOp(PseudoOps::Global));
            let is_pseudo: bool = matches!(&self.cur_tok, AsmToken::PseudoOp(_));
            let is_label: bool = matches!(&self.cur_tok, AsmToken::Label(_));
            if is_global {
                self.next_token();
                match self.get_label() {
                    Ok(l) => data.push(TextSegment::new_global_section(l)),
                    Err(e) => {
                        return Err(e);
                    },
                }
                self.next_token();
            } else if is_pseudo {
                break;
            } else if is_label {
                match self.parse_labeled_section() {
                    Ok(seg) => data.push(seg),
                    Err(e) => {
                        return Err(e);
                    },
                }
            } else {
                break;
            }
        }
        Ok(Sections::new_text_section(data))
    }

    /// A directive at section position: `.data` or `.text` opens a
    /// section; any other directive is out of place.
    fn parse_pseudo_ops(&mut self) -> (r: Result<Sections, ParserError>)
        requires
            old(self).wf(),
        ensures
            final(self).wf(),
            final(self).toks@ == old(self).toks@,
            r matches Ok(sec) ==> section_bus_ok(sec),
    {
        let op: PseudoOps = match self.get_pseudo_op() {
            Ok(p) => p,
            Err(e) => {
                return Err(e);
            },
        };
        match op {
            PseudoOps::Data => self.parse_data_directive(),
            PseudoOps::Text => self.parse_text_directive(),
            _ => Err(
                ParserError::ExpectedToBeInSection {
                    found: op,
                    cur_line: self.cur_line,
                    cur_column: self.cur_column,
                },
            ),
        }
    }

    /// One top-level item: a section, or an error for an illegal token.
    fn parse_section(&mut self) -> (r: Result<Sections, ParserError>)
        requires
            old(self).wf(),
        ensures
            final(self).wf(),
            final(self).toks@ == old(self).toks@,
            r matches Ok(sec) ==> section_bus_ok(sec),
    {
        if matches!(&self.cur_tok, AsmToken::Illegal) {
            Err(
                ParserError::UnexpectedToken {
                    tok: clone_tok(&self.cur_tok),
                    cur_line: self.cur_line,
                    cur_column: self.cur_column,
                },
            )
        } else {
            self.parse_pseudo_ops()
        }
    }

    /// The whole program: `sections` holds each successfully parsed
    /// section in input order and `errors` one entry per failed parse —
    /// errors are recoverable here and a best-effort program is always
    /// returned (a well-formed input collects none). Every instruction
    /// of every collected section passes the parse-time bus guards.
    #[verifier::loop_isolation(false)]
    pub fn get_deez_program(&mut self) -> (r: Program)
        requires
            old(self).wf(),
        ensures
            final(self).wf(),
            final(self).toks@ == old(self).toks@,
            program_bus_ok(r.sections@),
    {
        let mut program = Program { sections: Vec::new(), errors: Vec::new() };
        let mut fuel: usize = self.toks.len();
        while fuel > 0 && !matches!(&self.cur_tok, AsmToken::Eof)
            invariant
                self.wf(),
                self.toks@ == old(self).toks@,
                program_bus_ok(program.sections@),
            decreases fuel,
        {
            fuel = fuel - 1;
            match self.parse_section() {
                Ok(sec) => program.sections.push(sec),
                Err(e) => program.errors.push(e),
            }
            self.next_token();
        }
        program
    }
}

} // verus!
