//! Lowering from the typed AST to 64-bit microinstruction words: the
//! per-instruction bit patterns, the control-store build state, label
//! binding for data and text, and back-patching of forward references.

use crate::assembler::sections::{
    BranchInstruction, BranchOp, DataKind, DataWrited, DoubleOperandOpcode, ImmediateOrLabel,
    Instruction, NoOperandOpcode, Sections, SingleOperandOpcode, TextSegment, Value,
};
use crate::assembler::lexer::Lexer;
use crate::assembler::parser::{Parser, ParserError, Program};
use crate::assembler::tokens::Register;
use crate::uarch::mem::{
    next_mpc, opcode_jamn, opcode_jamz, opcode_jmpc, opcode_next, CtrlStore, CtrlStoreBuilder,
    RegistersView, CS_ADDRS,
};
use crate::uarch::{
    begin_cycle_regs, clk_inv, decoded_state, end_cycle_spec, machine_flipped, mi_a_sel, mi_alu,
    mi_b_sel, mi_cbus, mi_imm, mi_mem, mi_opcode, run_spec, ClkLevel, Computer, MachineView,
};
use vstd::prelude::*;

verus! {

/// Why assembly failed: a label used but never bound, or a register
/// routed onto a bus it is not wired to.
#[derive(Debug, PartialEq, Clone)]
pub enum AsmError {
    UnboundLabel(String),
    BusConstraint(Register),
    BadOperand,
    ParseErrors(Vec<ParserError>),
}

/// One microinstruction as separate fields, before packing.
#[derive(Debug, PartialEq, Eq, Structural, Clone, Copy)]
pub struct Microinstruction {
    pub next: u16,
    pub jam: u8,
    pub alu: u16,
    pub c_bus: u32,
    pub mem: u8,
    pub a: u8,
    pub b: u8,
    pub immediate: u8,
}

/// The packed 64-bit word: `NEXT | JAM | ALU | C_BUS | MEM | A | B | IMM`
/// from the most significant end.
pub open spec fn mi_encode(m: Microinstruction) -> u64 {
    ((((((((((((((m.next as u64) << 3) | (m.jam as u64)) << 9) | (m.alu as u64)) << 20) | (
    m.c_bus as u64)) << 3) | (m.mem as u64)) << 5) | (m.a as u64)) << 5) | (m.b as u64)) << 8) | (
    m.immediate as u64)
}

/// The fields read back from a packed word; the two spare top bits ride
/// along in `next`.
pub open spec fn mi_decode(w: u64) -> Microinstruction {
    Microinstruction {
        next: (w >> 53) as u16,
        jam: ((w >> 50) & 0x7) as u8,
        alu: mi_alu(w),
        c_bus: mi_cbus(w),
        mem: mi_mem(w),
        a: mi_a_sel(w),
        b: mi_b_sel(w),
        immediate: mi_imm(w),
    }
}

/// Re-encoding the fields read back from any word yields that word.
pub proof fn lemma_mi_encode_decode(w: u64)
    ensures
        mi_encode(mi_decode(w)) == w,
{
    assert(((((((((((((((((w >> 53) as u16) as u64) << 3) | ((((w >> 50) & 0x7) as u8) as u64))
        << 9) | ((((w >> 41) & 0x1ff) as u16) as u64)) << 20) | ((((w >> 21) & 0xfffff) as u32)
        as u64)) << 3) | ((((w >> 18) & 0x7) as u8) as u64)) << 5) | ((((w >> 13) & 0x1f) as u8)
        as u64)) << 5) | ((((w >> 8) & 0x1f) as u8) as u64)) << 8) | (((w & 0xff) as u8) as u64)
        == w) by (bit_vector);
}

/// Reading the fields back from a packed word recovers them, as long as
/// each was within its width.
pub proof fn lemma_mi_decode_encode(m: Microinstruction)
    requires
        m.next < 0x800,
        m.jam < 8,
        m.alu < 512,
        m.c_bus < 0x100000,
        m.mem < 8,
        m.a < 32,
        m.b < 32,
    ensures
        mi_decode(mi_encode(m)) == m,
{
    let next = m.next;
    let jam = m.jam;
    let alu = m.alu;
    let c = m.c_bus;
    let mem = m.mem;
    let a = m.a;
    let b = m.b;
    let imm = m.immediate;
    let w = mi_encode(m);
    assert(w == ((((((((((((((next as u64) << 3) | (jam as u64)) << 9) | (alu as u64)) << 20) | (
    c as u64)) << 3) | (mem as u64)) << 5) | (a as u64)) << 5) | (b as u64)) << 8) | (imm as u64));
    assert({
        let w2 = ((((((((((((((next as u64) << 3) | (jam as u64)) << 9) | (alu as u64)) << 20) | (
        c as u64)) << 3) | (mem as u64)) << 5) | (a as u64)) << 5) | (b as u64)) << 8) | (imm
            as u64);
        (next < 0x800 && jam < 8 && alu < 512 && c < 0x100000 && mem < 8 && a < 32 && b < 32) ==> (
        (w2 >> 53) as u16 == next && ((w2 >> 50) & 0x7) as u8 == jam && ((w2 >> 41) & 0x1ff) as u16
            == alu && ((w2 >> 21) & 0xfffff) as u32 == c && ((w2 >> 18) & 0x7) as u8 == mem && ((w2
            >> 13) & 0x1f) as u8 == a && ((w2 >> 8) & 0x1f) as u8 == b && (w2 & 0xff) as u8 == imm)
    }) by (bit_vector);
}

impl Microinstruction {
    /// The word that stops the run loop.
    pub const HALT: u64 = u64::MAX;

    /// The A-bus selector for the IMM field.
    pub const IMM_A: u8 = 0b01000;

    /// The B-bus selector for the IMM field.
    pub const IMM_B: u8 = 0b00011;

    /// The B-bus selector that reads as zero.
    pub const NO_B: u8 = 0b11111;

    /// A new microinstruction: everything idle, both selectors parked on
    /// the code that reads as zero, falling through to `next_addr`.
    pub fn new(next_addr: u16) -> (r: Microinstruction)
        ensures
            r == base_mi(next_addr),
    {
        Microinstruction {
            next: next_addr,
            jam: 0,
            alu: 0,
            c_bus: 0,
            mem: 0,
            a: 0b11111,
            b: 0b11111,
            immediate: 0,
        }
    }

    /// Pack the fields into the 64-bit word.
    pub fn get(&self) -> (r: u64)
        ensures
            r == mi_encode(*self),
    {
        let mut mi: u64 = self.next as u64;

        mi <<= 3;
        mi |= self.jam as u64;

        mi <<= 9;
        mi |= self.alu as u64;

        mi <<= 20;
        mi |= self.c_bus as u64;

        mi <<= 3;
        mi |= self.mem as u64;

        mi <<= 5;
        mi |= self.a as u64;

        mi <<= 5;
        mi |= self.b as u64;

        mi <<= 8;
        mi |= self.immediate as u64;
        mi
    }

    /// Unpack a 64-bit word into its fields.
    pub fn from_word(w: u64) -> (r: Microinstruction)
        ensures
            r == mi_decode(w),
    {
        Microinstruction {
            next: (w >> 53) as u16,
            jam: ((w >> 50) & 0x7) as u8,
            alu: ((w >> 41) & 0x1ff) as u16,
            c_bus: ((w >> 21) & 0xfffff) as u32,
            mem: ((w >> 18) & 0x7) as u8,
            a: ((w >> 13) & 0x1f) as u8,
            b: ((w >> 8) & 0x1f) as u8,
            immediate: (w & 0xff) as u8,
        }
    }
}

/// An idle microinstruction that falls through to `next`.
pub open spec fn base_mi(next: u16) -> Microinstruction {
    Microinstruction {
        next,
        jam: 0,
        alu: 0,
        c_bus: 0,
        mem: 0,
        a: 0b11111,
        b: 0b11111,
        immediate: 0,
    }
}

/// The fall-through successor of a control-store address: one past its
/// low byte, so emission walks the low 256 slots.
pub open spec fn cs_next_addr(curr: u16) -> u16 {
    ((curr & 0xff) + 1) as u16
}

/// A word emitted below the last low slot falls through inside the low
/// half of the store: its NEXT_ADDR has bit 8 clear.
pub proof fn lemma_fallthrough_low(curr: u16)
    requires
        curr < 255,
    ensures
        cs_next_addr(curr) < 256,
{
    assert(curr < 255 ==> (curr & 0xff) + 1 < 256) by (bit_vector);
}

proof fn lemma_low_byte_bound(x: u16)
    ensures
        x & 0xff < 256,
        x & 0x1ff < 512,
{
    assert(x & 0xff < 256 && x & 0x1ff < 512) by (bit_vector);
}

/// The control store under construction: the image filled so far and
/// the address the next instruction goes to.
pub struct CsState {
    pub builder: CtrlStoreBuilder,
    pub curr_addr: u16,
}

impl CsState {
    /// The fill address never leaves the low half plus its sentinel.
    pub open spec fn wf(&self) -> bool {
        &&& self.builder.wf()
        &&& self.curr_addr <= 256
    }

    pub fn new() -> (r: CsState)
        ensures
            r.wf(),
            r.curr_addr == 0,
            r.builder.firmware_view() == Seq::new(CS_ADDRS as nat, |i: int| 0u64),
            r.builder.mpc_view() == 0,
    {
        CsState { builder: CtrlStoreBuilder::new(), curr_addr: 0 }
    }

    pub fn addr(&self) -> (r: u16)
        ensures
            r == self.curr_addr,
    {
        self.curr_addr
    }

    /// The address the next emitted instruction falls through to.
    pub fn next_addr(&self) -> (r: u16)
        ensures
            r == cs_next_addr(self.curr_addr),
    {
        proof {
            lemma_low_byte_bound(self.curr_addr);
        }
        (self.curr_addr & 0xff) + 1
    }

    /// Emit one word at the fill address and advance it.
    pub fn add_instr(&mut self, inst: u64)
        requires
            old(self).wf(),
        ensures
            final(self).wf(),
            final(self).curr_addr == cs_next_addr(old(self).curr_addr),
            final(self).builder.firmware_view() == old(self).builder.firmware_view().update(
                old(self).curr_addr as int,
                inst,
            ),
            final(self).builder.mpc_view() == old(self).builder.mpc_view(),
    {
        proof {
            lemma_low_byte_bound(self.curr_addr);
        }
        self.builder.set_word(self.curr_addr, inst);
        self.curr_addr = (self.curr_addr & 0xff) + 1;
    }

    /// Place one word at a given address; addresses wrap in the 9-bit
    /// space of the store.
    pub fn set_instr(&mut self, addr: u16, inst: u64)
        requires
            old(self).wf(),
        ensures
            final(self).wf(),
            final(self).curr_addr == old(self).curr_addr,
            final(self).builder.firmware_view() == old(self).builder.firmware_view().update(
                (addr & 0x1ff) as int,
                inst,
            ),
            final(self).builder.mpc_view() == old(self).builder.mpc_view(),
    {
        proof {
            lemma_low_byte_bound(addr);
        }
        self.builder.set_word(addr & 0x1ff, inst);
    }

    /// Hand the finished image to a control store.
    pub fn build_cs(self) -> (r: CtrlStore)
        requires
            self.wf(),
        ensures
            r.wf(),
            r@.firmware == self.builder.firmware_view(),
            r@.mpc == self.builder.mpc_view(),
    {
        self.builder.build()
    }
}

/// Whether a register can drive the A bus.
pub open spec fn a_codeable(r: Register) -> bool {
    !(r is Mar)
}

/// Whether a register can drive the B bus.
pub open spec fn b_codeable(r: Register) -> bool {
    match r {
        Register::Mar => false,
        Register::Mbr => false,
        Register::Mbru => false,
        Register::Mbr2 => false,
        Register::Mbr2u => false,
        Register::Pc => false,
        _ => true,
    }
}

/// Whether a register can be a C-bus destination.
pub open spec fn c_codeable(r: Register) -> bool {
    match r {
        Register::Cpp => false,
        Register::Mbr => false,
        Register::Mbru => false,
        Register::Mbr2 => false,
        Register::Mbr2u => false,
        _ => true,
    }
}

/// The A-bus selector of each register (`Mar`, which is not wired to it,
/// reads as zero here and is rejected before lowering).
pub open spec fn spec_reg_a_code(r: Register) -> u8 {
    match r {
        Register::Mdr => 0,
        Register::Pc => 1,
        Register::Mbr => 2,
        Register::Mbru => 3,
        Register::Mbr2 => 4,
        Register::Mbr2u => 5,
        Register::Lv => 6,
        Register::Cpp => 7,
        Register::Ra => 9,
        Register::T0 => 10,
        Register::T1 => 11,
        Register::T2 => 12,
        Register::T3 => 13,
        Register::S0 => 14,
        Register::S1 => 15,
        Register::S2 => 16,
        Register::S3 => 17,
        Register::S4 => 18,
        Register::S5 => 19,
        Register::S6 => 20,
        Register::A0 => 21,
        Register::A1 => 22,
        Register::A2 => 23,
        Register::A3 => 24,
        Register::Mar => 0,
    }
}

/// The B-bus selector of each register (the ones not wired to it read
/// as zero here and are rejected before lowering).
pub open spec fn spec_reg_b_code(r: Register) -> u8 {
    match r {
        Register::Mdr => 0,
        Register::Lv => 1,
        Register::Cpp => 2,
        Register::Ra => 4,
        Register::T0 => 5,
        Register::T1 => 6,
        Register::T2 => 7,
        Register::T3 => 8,
        Register::S0 => 9,
        Register::S1 => 10,
        Register::S2 => 11,
        Register::S3 => 12,
        Register::S4 => 13,
        Register::S5 => 14,
        Register::S6 => 15,
        Register::A0 => 16,
        Register::A1 => 17,
        Register::A2 => 18,
        Register::A3 => 19,
        _ => 0,
    }
}

/// The C-bus write-enable bit of each register, one-hot from MDR at the
/// top of the 20-bit mask down to A3 (registers not wired to the C bus
/// contribute nothing and are rejected before lowering).
pub open spec fn spec_c_bit(r: Register) -> u32 {
    match r {
        Register::Mdr => 0x80000,
        Register::Mar => 0x40000,
        Register::Pc => 0x20000,
        Register::Lv => 0x10000,
        Register::Ra => 0x8000,
        Register::T0 => 0x4000,
        Register::T1 => 0x2000,
        Register::T2 => 0x1000,
        Register::T3 => 0x800,
        Register::S0 => 0x400,
        Register::S1 => 0x200,
        Register::S2 => 0x100,
        Register::S3 => 0x80,
        Register::S4 => 0x40,
        Register::S5 => 0x20,
        Register::S6 => 0x10,
        Register::A0 => 0x8,
        Register::A1 => 0x4,
        Register::A2 => 0x2,
        Register::A3 => 0x1,
        _ => 0,
    }
}

/// The 20-bit C-bus mask of a destination list: the or of the bits.
pub open spec fn spec_c_code(rs: Seq<Register>) -> u32
    decreases rs.len(),
{
    if rs.len() == 0 {
        0u32
    } else {
        spec_c_code(rs.drop_last()) | spec_c_bit(rs.last())
    }
}

/// A label map as specifications see it: the bindings in the order they
/// were made.
pub open spec fn entries_view(s: Seq<(String, u8)>) -> Seq<(Seq<char>, u8)> {
    s.map_values(|p: (String, u8)| (p.0@, p.1))
}

/// The value a label map binds a key to: the latest binding wins.
pub open spec fn assoc_lookup(entries: Seq<(Seq<char>, u8)>, key: Seq<char>) -> Option<u8>
    decreases entries.len(),
{
    if entries.len() == 0 {
        None
    } else if entries.last().0 == key {
        Some(entries.last().1)
    } else {
        assoc_lookup(entries.drop_last(), key)
    }
}

/// The pending list as specifications see it.
pub open spec fn pending_view_of(s: Seq<(String, u16, Microinstruction)>) -> Seq<
    (Seq<char>, u16, Microinstruction),
> {
    s.map_values(|p: (String, u16, Microinstruction)| (p.0@, p.1, p.2))
}

/// Look a key up in a label map; the latest binding wins.
fn lookup_entry(entries: &Vec<(String, u8)>, key: &String) -> (r: Option<u8>)
    ensures
        r == assoc_lookup(entries_view(entries@), key@),
{
    let ghost full: Seq<(Seq<char>, u8)> = entries_view(entries@);
    proof {
        assert(full.take(entries@.len() as int) =~= full);
    }
    let mut i: usize = entries.len();
    while i > 0
        invariant
            i <= entries@.len(),
            full == entries_view(entries@),
            assoc_lookup(full, key@) == assoc_lookup(full.take(i as int), key@),
        decreases i,
    {
        i = i - 1;
        if entries[i].0 == *key {
            proof {
                assert(full.take(i + 1).last() == full[i as int]);
            }
            return Some(entries[i].1);
        }
        proof {
            assert(full.take(i + 1).drop_last() =~= full.take(i as int));
        }
    }
    proof {
        assert(full.take(0) =~= Seq::<(Seq<char>, u8)>::empty());
    }
    None
}

/// The immediate an address operand denotes: itself, or what the data
/// label map binds.
pub open spec fn spec_iol(values: Seq<(Seq<char>, u8)>, iol: ImmediateOrLabel) -> Option<u8> {
    match iol {
        ImmediateOrLabel::Immediate(i) => Some(i),
        ImmediateOrLabel::Label(l) => assoc_lookup(values, l@),
    }
}

/// The `(A selector, IMM)` pair of a source value, when the value can
/// drive the A bus and any label is bound.
pub open spec fn spec_val_a(values: Seq<(Seq<char>, u8)>, v: Value) -> Option<(u8, u8)> {
    match v {
        Value::Reg(r) => if a_codeable(r) {
            Some((spec_reg_a_code(r), 0u8))
        } else {
            None
        },
        Value::Immediate(i) => Some((0b01000u8, i)),
        Value::Label(l) => match assoc_lookup(values, l@) {
            Some(x) => Some((0b01000u8, x)),
            None => None,
        },
    }
}

/// The `(B selector, IMM)` pair of a source value, when the value can
/// drive the B bus and any label is bound.
pub open spec fn spec_val_b(values: Seq<(Seq<char>, u8)>, v: Value) -> Option<(u8, u8)> {
    match v {
        Value::Reg(r) => if b_codeable(r) {
            Some((spec_reg_b_code(r), 0u8))
        } else {
            None
        },
        Value::Immediate(i) => Some((0b00011u8, i)),
        Value::Label(l) => match assoc_lookup(values, l@) {
            Some(x) => Some((0b00011u8, x)),
            None => None,
        },
    }
}

/// Whether every register of a destination list can be a C-bus
/// destination.
pub open spec fn all_c_codeable(rs: Seq<Register>) -> bool {
    forall|i: int| 0 <= i < rs.len() ==> c_codeable(#[trigger] rs[i])
}

/// The assembler's evaluation state: the data-label and text-label maps,
/// the RAM image the data section builds, and the pending list of
/// forward references awaiting resolution.
#[derive(Default)]
pub struct AsmEvaluator {
    values: Vec<(String, u8)>,
    addr: Vec<(String, u8)>,
    ram: Vec<u32>,
    unreachable: Vec<(String, u16, Microinstruction)>,
}

impl AsmEvaluator {
    /// The data-label bindings (symbol to 8-bit immediate).
    pub closed spec fn values_view(&self) -> Seq<(Seq<char>, u8)> {
        entries_view(self.values@)
    }

    /// The text-label bindings (label to control-store address).
    pub closed spec fn addr_view(&self) -> Seq<(Seq<char>, u8)> {
        entries_view(self.addr@)
    }

    /// The RAM image built from the data section.
    pub closed spec fn ram_view(&self) -> Seq<u32> {
        self.ram@
    }

    /// The pending forward references: label, control-store slot, and the
    /// word awaiting its NEXT field.
    pub closed spec fn pending_view(&self) -> Seq<(Seq<char>, u16, Microinstruction)> {
        pending_view_of(self.unreachable@)
    }

    pub fn new() -> (r: AsmEvaluator)
        ensures
            r.values_view() == Seq::<(Seq<char>, u8)>::empty(),
            r.addr_view() == Seq::<(Seq<char>, u8)>::empty(),
            r.ram_view() == Seq::<u32>::empty(),
            r.pending_view() == Seq::<(Seq<char>, u16, Microinstruction)>::empty(),
    {
        let r = AsmEvaluator {
            values: Vec::new(),
            addr: Vec::new(),
            ram: Vec::new(),
            unreachable: Vec::new(),
        };
        proof {
            assert(r.values_view() =~= Seq::<(Seq<char>, u8)>::empty());
            assert(r.addr_view() =~= Seq::<(Seq<char>, u8)>::empty());
            assert(r.pending_view() =~= Seq::<(Seq<char>, u16, Microinstruction)>::empty());
        }
        r
    }

    /// The A-bus selector of a register; only registers wired to the A
    /// bus may be asked.
    fn reg_a_code(&self, reg: &Register) -> (r: u8)
        requires
            a_codeable(*reg),
        ensures
            r == spec_reg_a_code(*reg),
    {
        match reg {
            Register::Mdr => 0,
            Register::Pc => 1,
            Register::Mbr => 2,
            Register::Mbru => 3,
            Register::Mbr2 => 4,
            Register::Mbr2u => 5,
            Register::Lv => 6,
            Register::Cpp => 7,
            Register::Ra => 9,
            Register::T0 => 10,
            Register::T1 => 11,
            Register::T2 => 12,
            Register::T3 => 13,
            Register::S0 => 14,
            Register::S1 => 15,
            Register::S2 => 16,
            Register::S3 => 17,
            Register::S4 => 18,
            Register::S5 => 19,
            Register::S6 => 20,
            Register::A0 => 21,
            Register::A1 => 22,
            Register::A2 => 23,
            Register::A3 => 24,
            Register::Mar => 0,
        }
    }

    /// The B-bus selector of a register; only registers wired to the B
    /// bus may be asked.
    pub fn reg_b_code(&self, reg: &Register) -> (r: u8)
        requires
            b_codeable(*reg),
        ensures
            r == spec_reg_b_code(*reg),
    {
        match reg {
            Register::Mdr => 0,
            Register::Lv => 1,
            Register::Cpp => 2,
            Register::Ra => 4,
            Register::T0 => 5,
            Register::T1 => 6,
            Register::T2 => 7,
            Register::T3 => 8,
            Register::S0 => 9,
            Register::S1 => 10,
            Register::S2 => 11,
            Register::S3 => 12,
            Register::S4 => 13,
            Register::S5 => 14,
            Register::S6 => 15,
            Register::A0 => 16,
            Register::A1 => 17,
            Register::A2 => 18,
            Register::A3 => 19,
            _ => 0,
        }
    }

    /// The C-bus mask of a destination list; every register in it must
    /// be a C-bus destination.
    pub fn get_c_code(&self, regs: &Vec<Register>) -> (r: u32)
        requires
            all_c_codeable(regs@),
        ensures
            r == spec_c_code(regs@),
    {
        let mut c_code: u32 = 0;
        let mut i: usize = 0;
        proof {
            assert(regs@.take(0) =~= Seq::<Register>::empty());
        }
        while i < regs.len()
            invariant
                i <= regs@.len(),
                c_code == spec_c_code(regs@.take(i as int)),
            decreases regs@.len() - i,
        {
            let bit: u32 = match regs[i] {
                Register::Mdr => 0x80000,
                Register::Mar => 0x40000,
                Register::Pc => 0x20000,
                Register::Lv => 0x10000,
                Register::Ra => 0x8000,
                Register::T0 => 0x4000,
                Register::T1 => 0x2000,
                Register::T2 => 0x1000,
                Register::T3 => 0x800,
                Register::S0 => 0x400,
                Register::S1 => 0x200,
                Register::S2 => 0x100,
                Register::S3 => 0x80,
                Register::S4 => 0x40,
                Register::S5 => 0x20,
                Register::S6 => 0x10,
                Register::A0 => 0x8,
                Register::A1 => 0x4,
                Register::A2 => 0x2,
                Register::A3 => 0x1,
                _ => 0,
            };
            c_code = c_code | bit;
            proof {
                assert(regs@.take(i + 1).drop_last() =~= regs@.take(i as int));
                assert(regs@.take(i + 1).last() == regs@[i as int]);
            }
            i = i + 1;
        }
        proof {
            assert(regs@.take(regs@.len() as int) =~= regs@);
        }
        c_code
    }

    /// Whether every register of a destination list is a C-bus
    /// destination, and if not, which one is not.
    fn check_c_codeable(&self, regs: &Vec<Register>) -> (r: Option<Register>)
        ensures
            r is None <==> all_c_codeable(regs@),
            r matches Some(reg) ==> !c_codeable(reg),
    {
        let mut i: usize = 0;
        while i < regs.len()
            invariant
                i <= regs@.len(),
                forall|j: int| 0 <= j < i ==> c_codeable(#[trigger] regs@[j]),
            decreases regs@.len() - i,
        {
            let ok: bool = match regs[i] {
                Register::Cpp => false,
                Register::Mbr => false,
                Register::Mbru => false,
                Register::Mbr2 => false,
                Register::Mbr2u => false,
                _ => true,
            };
            if !ok {
                return Some(regs[i]);
            }
            i = i + 1;
        }
        None
    }

    /// The `(A selector, IMM)` pair of a source value.
    fn val_a_code(&self, val: &Value) -> (r: Result<(u8, u8), AsmError>)
        ensures
            (r is Ok <==> spec_val_a(self.values_view(), *val) is Some),
            (r matches Ok(p) ==> spec_val_a(self.values_view(), *val) == Some(p)),
            (match *val {
                Value::Reg(reg) => !a_codeable(reg) ==> r == Err::<(u8, u8), AsmError>(
                    AsmError::BusConstraint(reg),
                ),
                _ => true,
            }),
            (match *val {
                Value::Label(l) => assoc_lookup(self.values_view(), l@) is None ==> (r matches Err(
                    e,
                ) && e matches AsmError::UnboundLabel(s) && s@ == l@),
                _ => true,
            }),
    {
        match val {
            Value::Reg(r) => {
                if matches!(r, Register::Mar) {
                    Err(AsmError::BusConstraint(*r))
                } else {
                    Ok((self.reg_a_code(r), 0))
                }
            },
            Value::Immediate(imm) => Ok((0b01000, *imm)),
            Value::Label(l) => match lookup_entry(&self.values, l) {
                Some(x) => Ok((0b01000, x)),
                None => Err(AsmError::UnboundLabel(l.clone())),
            },
        }
    }

    /// The `(B selector, IMM)` pair of a source value.
    fn val_b_code(&self, val: &Value) -> (r: Result<(u8, u8), AsmError>)
        ensures
            (r is Ok <==> spec_val_b(self.values_view(), *val) is Some),
            (r matches Ok(p) ==> spec_val_b(self.values_view(), *val) == Some(p)),
            (match *val {
                Value::Reg(reg) => !b_codeable(reg) ==> r == Err::<(u8, u8), AsmError>(
                    AsmError::BusConstraint(reg),
                ),
                _ => true,
            }),
            (match *val {
                Value::Label(l) => assoc_lookup(self.values_view(), l@) is None ==> (r matches Err(
                    e,
                ) && e matches AsmError::UnboundLabel(s) && s@ == l@),
                _ => true,
            }),
    {
        match val {
            Value::Reg(r) => {
                let ok: bool = match r {
                    Register::Mar => false,
                    Register::Mbr => false,
                    Register::Mbru => false,
                    Register::Mbr2 => false,
                    Register::Mbr2u => false,
                    Register::Pc => false,
                    _ => true,
                };
                if ok {
                    Ok((self.reg_b_code(r), 0))
                } else {
                    Err(AsmError::BusConstraint(*r))
                }
            },
            Value::Immediate(imm) => Ok((0b00011, *imm)),
            Value::Label(l) => match lookup_entry(&self.values, l) {
                Some(x) => Ok((0b00011, x)),
                None => Err(AsmError::UnboundLabel(l.clone())),
            },
        }
    }
}


/// The ALU control word of each double-operand mnemonic that lowers to
/// one microinstruction. `And`/`Andi` select the ALU's bitwise-AND
/// function (`enA`, `enB`, function code 0).
pub open spec fn double_alu(op: DoubleOperandOpcode) -> u16 {
    match op {
        DoubleOperandOpcode::Add => 0b000111100,
        DoubleOperandOpcode::Addi => 0b000111100,
        DoubleOperandOpcode::Sub => 0b000111111,
        DoubleOperandOpcode::Subi => 0b000111111,
        DoubleOperandOpcode::And => 0b000001100,
        DoubleOperandOpcode::Andi => 0b000001100,
        DoubleOperandOpcode::Or => 0b000011100,
        DoubleOperandOpcode::Ori => 0b000011100,
        DoubleOperandOpcode::Xor => 0b001001100,
        DoubleOperandOpcode::Xori => 0b001001100,
        DoubleOperandOpcode::Mul2 => 0b001011100,
        DoubleOperandOpcode::Muli => 0b001011100,
        DoubleOperandOpcode::Div => 0b001101100,
        DoubleOperandOpcode::Divi => 0b001101100,
        DoubleOperandOpcode::Mod => 0b001111100,
        DoubleOperandOpcode::Modi => 0b001111100,
        DoubleOperandOpcode::Mul => 0,
    }
}

/// Whether a double-operand mnemonic computes `B - A` with its operands
/// routed the other way round (subtraction via `invA` and `inc`).
pub open spec fn double_swapped(op: DoubleOperandOpcode) -> bool {
    op is Sub || op is Subi
}

/// The ALU control word of each single-operand mnemonic. `Lui` routes
/// the immediate through the left-by-8 shifter, so the destination gets
/// `imm << 8`.
pub open spec fn single_alu(op: SingleOperandOpcode) -> u16 {
    match op {
        SingleOperandOpcode::Lui => 0b100011000,
        SingleOperandOpcode::Not => 0b000011010,
        SingleOperandOpcode::Sll => 0b100011000,
        SingleOperandOpcode::Sra => 0b010011000,
        SingleOperandOpcode::Sla => 0b110011000,
        SingleOperandOpcode::Mov => 0b000011000,
    }
}

proof fn lemma_branched_addr(x: u16)
    ensures
        x < 512 ==> (x | 0x100) < 512,
        x < 512 ==> (x & 0x1ff) == x,
{
    assert((x < 512 ==> (x | 0x100) < 512) && (x < 512 ==> (x & 0x1ff) == x)) by (bit_vector);
}

impl AsmEvaluator {
    /// Lower an unconditional jump: one idle word whose NEXT field is
    /// the label's address, or, for a forward reference, a pending entry
    /// to be patched at resolution.
    pub fn eval_jal_inst(&mut self, label: &String, state: &mut CsState)
        requires
            old(state).wf(),
        ensures
            final(state).wf(),
            final(self).values_view() == old(self).values_view(),
            final(self).addr_view() == old(self).addr_view(),
            final(self).ram_view() == old(self).ram_view(),
            final(state).curr_addr == cs_next_addr(old(state).curr_addr),
            final(state).builder.mpc_view() == old(state).builder.mpc_view(),
            ({
                let n0 = cs_next_addr(old(state).curr_addr);
                let c0 = old(state).curr_addr as int;
                let fw = old(state).builder.firmware_view();
                match assoc_lookup(old(self).addr_view(), label@) {
                    Some(v) => final(state).builder.firmware_view() == fw.update(
                        c0,
                        mi_encode(Microinstruction { next: v as u16, ..base_mi(n0) }),
                    ) && final(self).pending_view() == old(self).pending_view(),
                    None => final(state).builder.firmware_view() == fw.update(
                        c0,
                        mi_encode(base_mi(n0)),
                    ) && final(self).pending_view() == old(self).pending_view().push(
                        (label@, old(state).curr_addr, base_mi(n0)),
                    ),
                }
            }),
    {
        let mut mi = Microinstruction::new(state.next_addr());
        match lookup_entry(&self.addr, label) {
            Some(v) => {
                mi.next = v as u16;
            },
            None => {
                self.unreachable.push((label.clone(), state.addr(), mi));
                proof {
                    assert(self.pending_view() =~= old(self).pending_view().push(
                        (label@, old(state).curr_addr, base_mi(cs_next_addr(old(state).curr_addr))),
                    ));
                }
            },
        }
        state.add_instr(mi.get());
    }

    /// Lower a no-operand mnemonic: the HALT sentinel, or an idle word
    /// that only falls through.
    pub fn eval_no_op_inst(&mut self, opcode: &NoOperandOpcode, state: &mut CsState)
        requires
            old(state).wf(),
        ensures
            final(state).wf(),
            final(self).values_view() == old(self).values_view(),
            final(self).addr_view() == old(self).addr_view(),
            final(self).ram_view() == old(self).ram_view(),
            final(self).pending_view() == old(self).pending_view(),
            final(state).curr_addr == cs_next_addr(old(state).curr_addr),
            final(state).builder.mpc_view() == old(state).builder.mpc_view(),
            final(state).builder.firmware_view() == old(state).builder.firmware_view().update(
                old(state).curr_addr as int,
                match *opcode {
                    NoOperandOpcode::Halt => Microinstruction::HALT as u64,
                    NoOperandOpcode::Nop => mi_encode(base_mi(cs_next_addr(old(state).curr_addr))),
                },
            ),
    {
        match opcode {
            NoOperandOpcode::Halt => state.add_instr(Microinstruction::HALT),
            NoOperandOpcode::Nop => {
                let mi = Microinstruction::new(state.next_addr());
                state.add_instr(mi.get());
            },
        }
    }

    /// Lower a memory read: `MAR <- address` with the read strobe, then
    /// `rds <- MDR`.
    pub fn eval_read_inst(
        &mut self,
        addr: &ImmediateOrLabel,
        rds: &Vec<Register>,
        state: &mut CsState,
    ) -> (r: Result<(), AsmError>)
        requires
            old(state).wf(),
        ensures
            final(state).wf(),
            final(self).values_view() == old(self).values_view(),
            final(self).addr_view() == old(self).addr_view(),
            final(self).ram_view() == old(self).ram_view(),
            final(self).pending_view() == old(self).pending_view(),
            final(state).builder.mpc_view() == old(state).builder.mpc_view(),
            (r is Ok <==> spec_iol(old(self).values_view(), *addr) is Some && all_c_codeable(
                rds@,
            )),
            r is Err ==> *final(state) == *old(state),
            (match *addr {
                ImmediateOrLabel::Label(l) => assoc_lookup(old(self).values_view(), l@) is None
                    ==> (r matches Err(e) && e matches AsmError::UnboundLabel(s) && s@ == l@),
                _ => true,
            }),
            r is Ok ==> ({
                let c0 = old(state).curr_addr;
                let n0 = cs_next_addr(c0);
                let n1 = cs_next_addr(n0);
                spec_iol(old(self).values_view(), *addr) matches Some(imm)
                    && final(state).builder.firmware_view() == old(state).builder.firmware_view().update(
                    c0 as int,
                    mi_encode(
                        Microinstruction {
                            alu: 0b000011000,
                            c_bus: 0x40000,
                            mem: 0b010,
                            a: 0b01000,
                            immediate: imm,
                            ..base_mi(n0)
                        },
                    ),
                ).update(
                    n0 as int,
                    mi_encode(
                        Microinstruction {
                            alu: 0b000011000,
                            c_bus: spec_c_code(rds@),
                            a: 0,
                            ..base_mi(n1)
                        },
                    ),
                ) && final(state).curr_addr == n1
            }),
    {
        let imm: u8 = match addr {
            ImmediateOrLabel::Immediate(i) => *i,
            ImmediateOrLabel::Label(l) => match lookup_entry(&self.values, l) {
                Some(x) => x,
                None => {
                    return Err(AsmError::UnboundLabel(l.clone()));
                },
            },
        };
        if let Some(bad) = self.check_c_codeable(rds) {
            return Err(AsmError::BusConstraint(bad));
        }
        let mut read = Microinstruction::new(state.next_addr());
        read.c_bus = 0x40000;
        read.alu = 0b000011000;
        read.mem = 0b010;
        read.a = 0b01000;
        read.immediate = imm;
        state.add_instr(read.get());

        let mut w_reg = Microinstruction::new(state.next_addr());
        w_reg.c_bus = self.get_c_code(rds);
        w_reg.alu = 0b000011000;
        w_reg.a = self.reg_a_code(&Register::Mdr);
        state.add_instr(w_reg.get());
        Ok(())
    }

    /// Lower a memory write: `MDR <- rs`, then `MAR <- address` with the
    /// write strobe.
    pub fn eval_write_inst(&mut self, addr: &ImmediateOrLabel, rd: &Register, state: &mut CsState)
        -> (r: Result<(), AsmError>)
        requires
            old(state).wf(),
        ensures
            final(state).wf(),
            final(self).values_view() == old(self).values_view(),
            final(self).addr_view() == old(self).addr_view(),
            final(self).ram_view() == old(self).ram_view(),
            final(self).pending_view() == old(self).pending_view(),
            final(state).builder.mpc_view() == old(state).builder.mpc_view(),
            (r is Ok <==> a_codeable(*rd) && spec_iol(old(self).values_view(), *addr) is Some),
            r is Err ==> *final(state) == *old(state),
            !a_codeable(*rd) ==> r == Err::<(), AsmError>(AsmError::BusConstraint(*rd)),
            (match *addr {
                ImmediateOrLabel::Label(l) => a_codeable(*rd) && assoc_lookup(
                    old(self).values_view(),
                    l@,
                ) is None ==> (r matches Err(e) && e matches AsmError::UnboundLabel(s) && s@ == l@),
                _ => true,
            }),
            r is Ok ==> ({
                let c0 = old(state).curr_addr;
                let n0 = cs_next_addr(c0);
                let n1 = cs_next_addr(n0);
                spec_iol(old(self).values_view(), *addr) matches Some(imm)
                    && final(state).builder.firmware_view() == old(state).builder.firmware_view().update(
                    c0 as int,
                    mi_encode(
                        Microinstruction {
                            alu: 0b000011000,
                            c_bus: 0x80000,
                            a: spec_reg_a_code(*rd),
                            ..base_mi(n0)
                        },
                    ),
                ).update(
                    n0 as int,
                    mi_encode(
                        Microinstruction {
                            alu: 0b000011000,
                            c_bus: 0x40000,
                            mem: 0b100,
                            a: 0b01000,
                            immediate: imm,
                            ..base_mi(n1)
                        },
                    ),
                ) && final(state).curr_addr == n1
            }),
    {
        if matches!(rd, Register::Mar) {
            return Err(AsmError::BusConstraint(*rd));
        }
        let imm: u8 = match addr {
            ImmediateOrLabel::Immediate(i) => *i,
            ImmediateOrLabel::Label(l) => match lookup_entry(&self.values, l) {
                Some(x) => x,
                None => {
                    return Err(AsmError::UnboundLabel(l.clone()));
                },
            },
        };
        let mut mdr = Microinstruction::new(state.next_addr());
        mdr.c_bus = 0x80000;
        mdr.alu = 0b000011000;
        mdr.a = self.reg_a_code(rd);
        state.add_instr(mdr.get());

        let mut mar = Microinstruction::new(state.next_addr());
        mar.c_bus = 0x40000;
        mar.alu = 0b000011000;
        mar.mem = 0b100;
        mar.a = 0b01000;
        mar.immediate = imm;
        state.add_instr(mar.get());
        Ok(())
    }

    /// Lower a single-operand mnemonic: one word that routes the source
    /// through the ALU function of the mnemonic onto the destinations.
    pub fn eval_single_op_inst(
        &mut self,
        op: &SingleOperandOpcode,
        rd: &Vec<Register>,
        rs1: &Value,
        state: &mut CsState,
    ) -> (r: Result<(), AsmError>)
        requires
            old(state).wf(),
        ensures
            final(state).wf(),
            final(self).values_view() == old(self).values_view(),
            final(self).addr_view() == old(self).addr_view(),
            final(self).ram_view() == old(self).ram_view(),
            final(self).pending_view() == old(self).pending_view(),
            final(state).builder.mpc_view() == old(state).builder.mpc_view(),
            (r is Ok <==> all_c_codeable(rd@) && spec_val_a(old(self).values_view(), *rs1)
                is Some),
            r is Err ==> *final(state) == *old(state),
            r is Ok ==> ({
                let c0 = old(state).curr_addr;
                let n0 = cs_next_addr(c0);
                spec_val_a(old(self).values_view(), *rs1) matches Some(va)
                    && final(state).builder.firmware_view() == old(state).builder.firmware_view().update(
                    c0 as int,
                    mi_encode(
                        Microinstruction {
                            alu: single_alu(*op),
                            c_bus: spec_c_code(rd@),
                            a: va.0,
                            immediate: va.1,
                            ..base_mi(n0)
                        },
                    ),
                ) && final(state).curr_addr == n0
            }),
    {
        if let Some(bad) = self.check_c_codeable(rd) {
            return Err(AsmError::BusConstraint(bad));
        }
        let c_code: u32 = self.get_c_code(rd);
        let mut mi = Microinstruction::new(state.next_addr());
        let va: (u8, u8) = match self.val_a_code(rs1) {
            Ok(p) => p,
            Err(e) => {
                return Err(e);
            },
        };
        mi.a = va.0;
        mi.immediate = va.1;
        mi.c_bus = c_code;
        mi.b = 0b11111;
        mi.alu = match op {
            SingleOperandOpcode::Lui => 0b100011000,
            SingleOperandOpcode::Not => 0b000011010,
            SingleOperandOpcode::Sll => 0b100011000,
            SingleOperandOpcode::Sra => 0b010011000,
            SingleOperandOpcode::Sla => 0b110011000,
            SingleOperandOpcode::Mov => 0b000011000,
        };
        state.add_instr(mi.get());
        Ok(())
    }
}


impl AsmEvaluator {
    /// Lower a double-operand mnemonic. Every mnemonic but `Mul` is one
    /// word: `rs1` on the A bus and `rs2` on the B bus (the other way
    /// round for subtraction, which computes `B - A`). `Mul` expands to
    /// the multiply macro: compare the operands, copy the smaller into
    /// T0 as the loop counter and the larger into T1/T2 and the
    /// destinations, then add T2 into T1 and the destinations until T0
    /// reaches zero; both the compared and the swapped entry path are
    /// emitted, and the loop exit jumps past the macro. Run, the macro
    /// loops about `min(rs1, rs2)` rounds and leaves each destination
    /// holding `rs1 * rs2` modulo 2^32, with T0 at zero and T1/T2
    /// clobbered; this contract pins the emitted words, and the
    /// machine-level effect is exercised by tests over the run loop.
    pub fn eval_double_op_inst(
        &mut self,
        opcode: &DoubleOperandOpcode,
        rd: &Vec<Register>,
        rs1: &Register,
        rs2: &Value,
        state: &mut CsState,
    ) -> (r: Result<(), AsmError>)
        requires
            old(state).wf(),
        ensures
            final(state).wf(),
            final(self).values_view() == old(self).values_view(),
            final(self).addr_view() == old(self).addr_view(),
            final(self).ram_view() == old(self).ram_view(),
            final(self).pending_view() == old(self).pending_view(),
            final(state).builder.mpc_view() == old(state).builder.mpc_view(),
            r is Err ==> *final(state) == *old(state),
            ({
                let c0 = old(state).curr_addr;
                let n0 = cs_next_addr(c0);
                let fw = old(state).builder.firmware_view();
                let values = old(self).values_view();
                let c = spec_c_code(rd@);
                match *opcode {
                    DoubleOperandOpcode::Mul => (match *rs2 {
                        Value::Reg(r2) => {
                            &&& (r is Ok <==> all_c_codeable(rd@) && a_codeable(*rs1)
                                && b_codeable(r2) && a_codeable(r2))
                            &&& (r is Ok ==> ({
                                let n1 = n0;
                                let branched = (n1 | 0x100) as u16;
                                let n2 = cs_next_addr(n1);
                                let n3 = cs_next_addr(n2);
                                let n4 = cs_next_addr(n3);
                                let n5 = cs_next_addr(n4);
                                let n6 = cs_next_addr(n5);
                                &&& final(state).builder.firmware_view() == fw.update(
                                    c0 as int,
                                    mi_encode(
                                        Microinstruction {
                                            jam: 0b010,
                                            alu: 0b000111111,
                                            a: spec_reg_a_code(*rs1),
                                            b: spec_reg_b_code(r2),
                                            ..base_mi(n1)
                                        },
                                    ),
                                ).update(
                                    n1 as int,
                                    mi_encode(
                                        Microinstruction {
                                            alu: 0b000011000,
                                            c_bus: 0x4000,
                                            a: spec_reg_a_code(*rs1),
                                            ..base_mi(n2)
                                        },
                                    ),
                                ).update(
                                    n2 as int,
                                    mi_encode(
                                        Microinstruction {
                                            alu: 0b000011000,
                                            c_bus: 0x2000u32 | 0x1000 | c,
                                            a: spec_reg_a_code(r2),
                                            ..base_mi(n3)
                                        },
                                    ),
                                ).update(
                                    n3 as int,
                                    mi_encode(
                                        Microinstruction {
                                            jam: 0b001,
                                            alu: 0b000110110,
                                            c_bus: 0x4000,
                                            b: 5,
                                            ..base_mi(n4)
                                        },
                                    ),
                                ).update(
                                    n4 as int,
                                    mi_encode(
                                        Microinstruction {
                                            alu: 0b000111100,
                                            c_bus: 0x2000u32 | c,
                                            a: 11,
                                            b: 7,
                                            ..base_mi(n3)
                                        },
                                    ),
                                ).update(
                                    branched as int,
                                    mi_encode(
                                        Microinstruction {
                                            alu: 0b000011000,
                                            c_bus: 0x4000,
                                            a: spec_reg_a_code(r2),
                                            ..base_mi((cs_next_addr(n5) - 1) as u16)
                                        },
                                    ),
                                ).update(
                                    n5 as int,
                                    mi_encode(
                                        Microinstruction {
                                            alu: 0b000011000,
                                            c_bus: 0x2000u32 | 0x1000 | c,
                                            a: spec_reg_a_code(*rs1),
                                            ..base_mi(n3)
                                        },
                                    ),
                                ).update(
                                    (((n3 + 1) as u16 | 0x100) & 0x1ff) as int,
                                    mi_encode(base_mi(n6)),
                                )
                                &&& final(state).curr_addr == n6
                            }))
                        },
                        _ => r is Err,
                    }),
                    DoubleOperandOpcode::Sub => {
                        &&& (r is Ok <==> all_c_codeable(rd@) && b_codeable(*rs1) && spec_val_a(
                            values,
                            *rs2,
                        ) is Some)
                        &&& (r is Ok ==> ({ spec_val_a(values, *rs2) matches Some(va) && final(state).builder.firmware_view() == fw.update(
                            c0 as int,
                            mi_encode(
                                Microinstruction {
                                    alu: 0b000111111,
                                    c_bus: c,
                                    a: va.0,
                                    b: spec_reg_b_code(*rs1),
                                    immediate: va.1,
                                    ..base_mi(n0)
                                },
                            ),
                        ) && final(state).curr_addr == n0 }))
                    },
                    DoubleOperandOpcode::Subi => {
                        &&& (r is Ok <==> all_c_codeable(rd@) && b_codeable(*rs1) && spec_val_a(
                            values,
                            *rs2,
                        ) is Some)
                        &&& (r is Ok ==> ({ spec_val_a(values, *rs2) matches Some(va) && final(state).builder.firmware_view() == fw.update(
                            c0 as int,
                            mi_encode(
                                Microinstruction {
                                    alu: 0b000111111,
                                    c_bus: c,
                                    a: va.0,
                                    b: spec_reg_b_code(*rs1),
                                    immediate: va.1,
                                    ..base_mi(n0)
                                },
                            ),
                        ) && final(state).curr_addr == n0 }))
                    },
                    _ => {
                        &&& (r is Ok <==> all_c_codeable(rd@) && a_codeable(*rs1) && spec_val_b(
                            values,
                            *rs2,
                        ) is Some)
                        &&& (r is Ok ==> ({ spec_val_b(values, *rs2) matches Some(vb) && final(state).builder.firmware_view() == fw.update(
                            c0 as int,
                            mi_encode(
                                Microinstruction {
                                    alu: double_alu(*opcode),
                                    c_bus: c,
                                    a: spec_reg_a_code(*rs1),
                                    b: vb.0,
                                    immediate: vb.1,
                                    ..base_mi(n0)
                                },
                            ),
                        ) && final(state).curr_addr == n0 }))
                    },
                }
            }),
    {
        if let Some(bad) = self.check_c_codeable(rd) {
            return Err(AsmError::BusConstraint(bad));
        }
        let c_code: u32 = self.get_c_code(rd);
        match opcode {
            DoubleOperandOpcode::Sub | DoubleOperandOpcode::Subi => {
                let b_ok: bool = match rs1 {
                    Register::Mar => false,
                    Register::Mbr => false,
                    Register::Mbru => false,
                    Register::Mbr2 => false,
                    Register::Mbr2u => false,
                    Register::Pc => false,
                    _ => true,
                };
                if !b_ok {
                    return Err(AsmError::BusConstraint(*rs1));
                }
                let va: (u8, u8) = match self.val_a_code(rs2) {
                    Ok(p) => p,
                    Err(e) => {
                        return Err(e);
                    },
                };
                let mut mi = Microinstruction::new(state.next_addr());
                mi.c_bus = c_code;
                mi.alu = 0b000111111;
                mi.b = self.reg_b_code(rs1);
                mi.a = va.0;
                mi.immediate = va.1;
                state.add_instr(mi.get());
                Ok(())
            },
            DoubleOperandOpcode::Mul => {
                if matches!(rs1, Register::Mar) {
                    return Err(AsmError::BusConstraint(*rs1));
                }
                let r2: Register = match rs2 {
                    Value::Reg(x) => *x,
                    _ => {
                        return Err(AsmError::BadOperand);
                    },
                };
                let b_ok: bool = match r2 {
                    Register::Mar => false,
                    Register::Mbr => false,
                    Register::Mbru => false,
                    Register::Mbr2 => false,
                    Register::Mbr2u => false,
                    Register::Pc => false,
                    _ => true,
                };
                if !b_ok {
                    return Err(AsmError::BusConstraint(r2));
                }
                let branched_addr: u16 = state.next_addr() | 0b100000000;
                proof {
                    let c0 = old(state).curr_addr;
                    let n1 = cs_next_addr(c0);
                    let n2 = cs_next_addr(n1);
                    let n3 = cs_next_addr(n2);
                    let n4 = cs_next_addr(n3);
                    let n5 = cs_next_addr(n4);
                    lemma_low_byte_bound(c0);
                    lemma_low_byte_bound(n1);
                    lemma_low_byte_bound(n2);
                    lemma_low_byte_bound(n3);
                    lemma_low_byte_bound(n4);
                    lemma_low_byte_bound(n5);
                    lemma_branched_addr(n1);
                    lemma_branched_addr((n1 | 0x100) as u16);
                    lemma_branched_addr((n3 + 1) as u16);
                    lemma_branched_addr((((n3 + 1) as u16) | 0x100) as u16);
                }

                let mut mi = Microinstruction::new(state.next_addr());
                mi.jam = 0b010;
                mi.alu = 0b000111111;
                mi.a = self.reg_a_code(rs1);
                mi.b = self.reg_b_code(&r2);
                state.add_instr(mi.get());

                let mut mi = Microinstruction::new(state.next_addr());
                mi.alu = 0b000011000;
                mi.c_bus = 0x4000;
                mi.a = self.reg_a_code(rs1);
                state.add_instr(mi.get());

                let mut mi = Microinstruction::new(state.next_addr());
                mi.alu = 0b000011000;
                mi.c_bus = 0x2000 | 0x1000 | c_code;
                mi.a = self.reg_a_code(&r2);
                let loop_addr: u16 = state.next_addr();
                state.add_instr(mi.get());

                let mut mi = Microinstruction::new(state.next_addr());
                mi.jam = 0b001;
                mi.alu = 0b000110110;
                mi.c_bus = 0x4000;
                mi.b = self.reg_b_code(&Register::T0);
                state.add_instr(mi.get());

                let mut mi = Microinstruction::new(loop_addr);
                mi.c_bus = 0x2000 | c_code;
                mi.alu = 0b000111100;
                mi.a = self.reg_a_code(&Register::T1);
                mi.b = self.reg_b_code(&Register::T2);
                state.add_instr(mi.get());

                let mut mi = Microinstruction::new(state.next_addr() - 1);
                mi.alu = 0b000011000;
                mi.c_bus = 0x4000;
                mi.a = self.reg_a_code(&r2);
                state.set_instr(branched_addr, mi.get());

                let mut mi = Microinstruction::new(loop_addr);
                mi.alu = 0b000011000;
                mi.c_bus = 0x2000 | 0x1000 | c_code;
                mi.a = self.reg_a_code(rs1);
                state.add_instr(mi.get());

                let jal = Microinstruction::new(state.addr());
                state.set_instr((loop_addr + 1) | 0b100000000, jal.get());
                Ok(())
            },
            _ => {
                if matches!(rs1, Register::Mar) {
                    return Err(AsmError::BusConstraint(*rs1));
                }
                let vb: (u8, u8) = match self.val_b_code(rs2) {
                    Ok(p) => p,
                    Err(e) => {
                        return Err(e);
                    },
                };
                let mut mi = Microinstruction::new(state.next_addr());
                mi.c_bus = c_code;
                mi.alu = match opcode {
                    DoubleOperandOpcode::Add => 0b000111100,
                    DoubleOperandOpcode::Addi => 0b000111100,
                    DoubleOperandOpcode::And => 0b000001100,
                    DoubleOperandOpcode::Andi => 0b000001100,
                    DoubleOperandOpcode::Or => 0b000011100,
                    DoubleOperandOpcode::Ori => 0b000011100,
                    DoubleOperandOpcode::Xor => 0b001001100,
                    DoubleOperandOpcode::Xori => 0b001001100,
                    DoubleOperandOpcode::Mul2 => 0b001011100,
                    DoubleOperandOpcode::Muli => 0b001011100,
                    DoubleOperandOpcode::Div => 0b001101100,
                    DoubleOperandOpcode::Divi => 0b001101100,
                    DoubleOperandOpcode::Mod => 0b001111100,
                    DoubleOperandOpcode::Modi => 0b001111100,
                    _ => 0,
                };
                mi.a = self.reg_a_code(rs1);
                mi.b = vb.0;
                mi.immediate = vb.1;
                state.add_instr(mi.get());
                Ok(())
            },
        }
    }
}


/// Whether the registers of a branch can drive the buses its microcode
/// routes them onto: `rs1 - rs2` is computed as `B - A`; `Blt` swaps the
/// operands, and `Bne` emits both orders.
pub open spec fn branch_codeable(ins: BranchInstruction) -> bool {
    match ins.opcode {
        BranchOp::Beq => a_codeable(ins.rs1) && b_codeable(ins.rs2),
        BranchOp::Bgt => a_codeable(ins.rs1) && b_codeable(ins.rs2),
        BranchOp::Blt => a_codeable(ins.rs1) && b_codeable(ins.rs2) && a_codeable(ins.rs2)
            && b_codeable(ins.rs1),
        BranchOp::Bne => a_codeable(ins.rs1) && b_codeable(ins.rs2) && a_codeable(ins.rs2)
            && b_codeable(ins.rs1),
    }
}

/// The comparing microinstruction of a branch: `rs2 - rs1 < 0` drives
/// JAMN for `Bgt` (and, operands swapped, for `Blt` and the second `Bne`
/// word); equality drives JAMZ for `Beq`.
pub open spec fn branch_first_mi(ins: BranchInstruction, next: u16) -> Microinstruction {
    Microinstruction {
        jam: if ins.opcode is Beq {
            0b001
        } else {
            0b010
        },
        alu: 0b000111111,
        a: if ins.opcode is Blt {
            spec_reg_a_code(ins.rs2)
        } else {
            spec_reg_a_code(ins.rs1)
        },
        b: if ins.opcode is Blt {
            spec_reg_b_code(ins.rs1)
        } else {
            spec_reg_b_code(ins.rs2)
        },
        ..base_mi(next)
    }
}

impl AsmEvaluator {
    /// Lower a conditional branch: the comparing word falls through, and
    /// its taken slot at `next | 0x100` holds a jump to the label (or a
    /// pending entry for a forward reference). `Bne` emits two comparing
    /// words, the second with the operands swapped, and fills both taken
    /// slots. One boundary quirk: a `Bne` emitted at fill address 254
    /// gives its second word the fall-through NEXT 256, which has bit 8
    /// set; programs that stay under 254 words keep every fall-through
    /// in the low half (see [`lemma_fallthrough_low`]).
    pub fn eval_branch_inst(&mut self, ins: &BranchInstruction, state: &mut CsState) -> (r: Result<
        (),
        AsmError,
    >)
        requires
            old(state).wf(),
        ensures
            final(state).wf(),
            final(self).values_view() == old(self).values_view(),
            final(self).addr_view() == old(self).addr_view(),
            final(self).ram_view() == old(self).ram_view(),
            final(state).builder.mpc_view() == old(state).builder.mpc_view(),
            (r is Ok <==> branch_codeable(*ins)),
            r is Err ==> *final(state) == *old(state) && final(self).pending_view() == old(
                self,
            ).pending_view(),
            r is Ok ==> ({
                let c0 = old(state).curr_addr;
                let n1 = cs_next_addr(c0);
                let branched = (n1 | 0x100) as u16;
                let fw = old(state).builder.firmware_view();
                let bound = assoc_lookup(old(self).addr_view(), ins.label@);
                let br = match bound {
                    Some(v) => Microinstruction { next: v as u16, ..base_mi(branched) },
                    None => base_mi(branched),
                };
                let first = branch_first_mi(*ins, n1);
                if ins.opcode is Bne {
                    let second = Microinstruction {
                        next: (n1 + 1) as u16,
                        a: spec_reg_a_code(ins.rs2),
                        b: spec_reg_b_code(ins.rs1),
                        ..first
                    };
                    &&& final(state).builder.firmware_view() == fw.update(
                        c0 as int,
                        mi_encode(first),
                    ).update(n1 as int, mi_encode(second)).update(
                        branched as int,
                        mi_encode(br),
                    ).update((((branched + 1) as u16 & 0x1ff)) as int, mi_encode(br))
                    &&& final(state).curr_addr == cs_next_addr(n1)
                    &&& final(self).pending_view() == if bound is None {
                        old(self).pending_view().push(
                            (ins.label@, branched, base_mi(branched)),
                        ).push((ins.label@, (branched + 1) as u16, base_mi(branched)))
                    } else {
                        old(self).pending_view()
                    }
                } else {
                    &&& final(state).builder.firmware_view() == fw.update(
                        c0 as int,
                        mi_encode(first),
                    ).update(branched as int, mi_encode(br))
                    &&& final(state).curr_addr == n1
                    &&& final(self).pending_view() == if bound is None {
                        old(self).pending_view().push((ins.label@, branched, base_mi(branched)))
                    } else {
                        old(self).pending_view()
                    }
                }
            }),
    {
        let a1_ok: bool = !matches!(ins.rs1, Register::Mar);
        let b2_ok: bool = match ins.rs2 {
            Register::Mar => false,
            Register::Mbr => false,
            Register::Mbru => false,
            Register::Mbr2 => false,
            Register::Mbr2u => false,
            Register::Pc => false,
            _ => true,
        };
        let a2_ok: bool = !matches!(ins.rs2, Register::Mar);
        let b1_ok: bool = match ins.rs1 {
            Register::Mar => false,
            Register::Mbr => false,
            Register::Mbru => false,
            Register::Mbr2 => false,
            Register::Mbr2u => false,
            Register::Pc => false,
            _ => true,
        };
        let needs_swap: bool = matches!(ins.opcode, BranchOp::Blt) || matches!(
            ins.opcode,
            BranchOp::Bne,
        );
        if !a1_ok {
            return Err(AsmError::BusConstraint(ins.rs1));
        }
        if !b2_ok {
            return Err(AsmError::BusConstraint(ins.rs2));
        }
        if needs_swap && !a2_ok {
            return Err(AsmError::BusConstraint(ins.rs2));
        }
        if needs_swap && !b1_ok {
            return Err(AsmError::BusConstraint(ins.rs1));
        }

        proof {
            lemma_low_byte_bound(old(state).curr_addr);
            lemma_branched_addr(cs_next_addr(old(state).curr_addr));
            lemma_branched_addr(
                (cs_next_addr(old(state).curr_addr) | 0x100) as u16,
            );
            lemma_branched_addr(
                ((cs_next_addr(old(state).curr_addr) | 0x100) + 1) as u16,
            );
        }

        let mut first = Microinstruction::new(state.next_addr());
        let branched_addr: u16 = state.next_addr() | 0b100000000;
        first.alu = 0b000111111;
        first.a = self.reg_a_code(&ins.rs1);
        first.b = self.reg_b_code(&ins.rs2);

        let mut branched = Microinstruction::new(branched_addr);
        match lookup_entry(&self.addr, &ins.label) {
            Some(v) => {
                branched.next = v as u16;
            },
            None => {
                self.unreachable.push((ins.label.clone(), branched_addr, branched));
                proof {
                    assert(self.pending_view() =~= old(self).pending_view().push(
                        (ins.label@, branched_addr, base_mi(branched_addr)),
                    ));
                }
            },
        }

        match ins.opcode {
            BranchOp::Beq => {
                first.jam = 0b001;
                state.add_instr(first.get());
                state.set_instr(branched_addr, branched.get());
            },
            BranchOp::Blt => {
                first.jam = 0b010;
                first.a = self.reg_a_code(&ins.rs2);
                first.b = self.reg_b_code(&ins.rs1);
                state.add_instr(first.get());
                state.set_instr(branched_addr, branched.get());
            },
            BranchOp::Bgt => {
                first.jam = 0b010;
                state.add_instr(first.get());
                state.set_instr(branched_addr, branched.get());
            },
            BranchOp::Bne => {
                first.jam = 0b010;
                let mut second = first;
                second.next = second.next + 1;
                second.a = self.reg_a_code(&ins.rs2);
                second.b = self.reg_b_code(&ins.rs1);
                let pend: bool = lookup_entry(&self.addr, &ins.label).is_none();
                if pend {
                    let mut br2 = Microinstruction::new(branched_addr);
                    self.unreachable.push((ins.label.clone(), branched_addr + 1, br2));
                    proof {
                        assert(self.pending_view() =~= old(self).pending_view().push(
                            (ins.label@, branched_addr, base_mi(branched_addr)),
                        ).push((ins.label@, (branched_addr + 1) as u16, base_mi(branched_addr))));
                    }
                }
                state.add_instr(first.get());
                state.add_instr(second.get());
                state.set_instr(branched_addr, branched.get());
                state.set_instr(branched_addr + 1, branched.get());
            },
        }
        Ok(())
    }
}


/// The immediate a data definition binds its label to: the byte itself,
/// or the RAM slot index the word is appended at.
pub open spec fn spec_data_binding(ram_len: nat, kind: DataKind) -> u8 {
    match kind {
        DataKind::Byte(b) => b,
        DataKind::Word(_) => ram_len as u8,
    }
}

/// The data-label map and RAM image after a run of data definitions.
pub open spec fn spec_data_eval(
    values: Seq<(Seq<char>, u8)>,
    ram: Seq<u32>,
    data: Seq<DataWrited>,
) -> (Seq<(Seq<char>, u8)>, Seq<u32>)
    decreases data.len(),
{
    if data.len() == 0 {
        (values, ram)
    } else {
        let d = data.first();
        let values2 = values.push((d.label@, spec_data_binding(ram.len(), d.kind)));
        let ram2 = match d.kind {
            DataKind::Byte(_) => ram,
            DataKind::Word(w) => ram.push(w as u32),
        };
        spec_data_eval(values2, ram2, data.drop_first())
    }
}

/// Whether every pending forward reference has a bound label.
pub open spec fn all_pending_bound(
    pending: Seq<(Seq<char>, u16, Microinstruction)>,
    addrs: Seq<(Seq<char>, u8)>,
) -> bool {
    forall|i: int|
        0 <= i < pending.len() ==> assoc_lookup(addrs, #[trigger] pending[i].0) is Some
}

/// The store image after back-patching: each pending word gets the bound
/// address as its NEXT field and lands in its recorded slot (addresses
/// wrap in the 9-bit space); an unbound entry, which resolution rejects,
/// would leave the image unchanged.
pub open spec fn spec_resolved(
    pending: Seq<(Seq<char>, u16, Microinstruction)>,
    addrs: Seq<(Seq<char>, u8)>,
    fw: Seq<u64>,
) -> Seq<u64>
    decreases pending.len(),
{
    if pending.len() == 0 {
        fw
    } else {
        let e = pending.first();
        let fw2 = match assoc_lookup(addrs, e.0) {
            Some(a) => fw.update(
                (e.1 & 0x1ff) as int,
                mi_encode(Microinstruction { next: a as u16, ..e.2 }),
            ),
            None => fw,
        };
        spec_resolved(pending.drop_first(), addrs, fw2)
    }
}

/// Whether one instruction lowers without error: its destinations can
/// take the C bus, its sources can drive their buses, and any data
/// label it reads is bound.
pub open spec fn inst_ok(values: Seq<(Seq<char>, u8)>, inst: Instruction) -> bool {
    match inst {
        Instruction::DoubleOperand(d) => match d.opcode {
            DoubleOperandOpcode::Mul => match d.rs2 {
                Value::Reg(r2) => all_c_codeable(d.rd@) && a_codeable(d.rs1) && b_codeable(r2)
                    && a_codeable(r2),
                _ => false,
            },
            DoubleOperandOpcode::Sub | DoubleOperandOpcode::Subi => all_c_codeable(d.rd@)
                && b_codeable(d.rs1) && spec_val_a(values, d.rs2) is Some,
            _ => all_c_codeable(d.rd@) && a_codeable(d.rs1) && spec_val_b(values, d.rs2) is Some,
        },
        Instruction::SingleOperand(sgl) => all_c_codeable(sgl.rd@) && spec_val_a(
            values,
            sgl.rs1,
        ) is Some,
        Instruction::NoOperand(_) => true,
        Instruction::Branch(b) => branch_codeable(b),
        Instruction::Jal(_) => true,
        Instruction::WriteInstruction(addr, rd) => a_codeable(rd) && spec_iol(values, addr)
            is Some,
        Instruction::ReadInstruction(addr, rds) => spec_iol(values, addr) is Some
            && all_c_codeable(rds@),
    }
}

/// The store image, fill address and pending list after one instruction
/// lowers (meaningful when `inst_ok` holds).
pub open spec fn inst_effect(
    values: Seq<(Seq<char>, u8)>,
    addrs: Seq<(Seq<char>, u8)>,
    pending: Seq<(Seq<char>, u16, Microinstruction)>,
    fw: Seq<u64>,
    curr: u16,
    inst: Instruction,
) -> (Seq<u64>, u16, Seq<(Seq<char>, u16, Microinstruction)>) {
    let n0 = cs_next_addr(curr);
    match inst {
        Instruction::DoubleOperand(d) => match d.opcode {
            DoubleOperandOpcode::Mul => match d.rs2 {
                Value::Reg(r2) => {
                    let c = spec_c_code(d.rd@);
                    let n1 = n0;
                    let branched = (n1 | 0x100) as u16;
                    let n2 = cs_next_addr(n1);
                    let n3 = cs_next_addr(n2);
                    let n4 = cs_next_addr(n3);
                    let n5 = cs_next_addr(n4);
                    let n6 = cs_next_addr(n5);
                    let fw2 = fw.update(
                        curr as int,
                        mi_encode(
                            Microinstruction {
                                jam: 0b010,
                                alu: 0b000111111,
                                a: spec_reg_a_code(d.rs1),
                                b: spec_reg_b_code(r2),
                                ..base_mi(n1)
                            },
                        ),
                    ).update(
                        n1 as int,
                        mi_encode(
                            Microinstruction {
                                alu: 0b000011000,
                                c_bus: 0x4000,
                                a: spec_reg_a_code(d.rs1),
                                ..base_mi(n2)
                            },
                        ),
                    ).update(
                        n2 as int,
                        mi_encode(
                            Microinstruction {
                                alu: 0b000011000,
                                c_bus: 0x2000u32 | 0x1000 | c,
                                a: spec_reg_a_code(r2),
                                ..base_mi(n3)
                            },
                        ),
                    ).update(
                        n3 as int,
                        mi_encode(
                            Microinstruction {
                                jam: 0b001,
                                alu: 0b000110110,
                                c_bus: 0x4000,
                                b: 5,
                                ..base_mi(n4)
                            },
                        ),
                    ).update(
                        n4 as int,
                        mi_encode(
                            Microinstruction {
                                alu: 0b000111100,
                                c_bus: 0x2000u32 | c,
                                a: 11,
                                b: 7,
                                ..base_mi(n3)
                            },
                        ),
                    ).update(
                        branched as int,
                        mi_encode(
                            Microinstruction {
                                alu: 0b000011000,
                                c_bus: 0x4000,
                                a: spec_reg_a_code(r2),
                                ..base_mi((cs_next_addr(n5) - 1) as u16)
                            },
                        ),
                    ).update(
                        n5 as int,
                        mi_encode(
                            Microinstruction {
                                alu: 0b000011000,
                                c_bus: 0x2000u32 | 0x1000 | c,
                                a: spec_reg_a_code(d.rs1),
                                ..base_mi(n3)
                            },
                        ),
                    ).update((((n3 + 1) as u16 | 0x100) & 0x1ff) as int, mi_encode(base_mi(n6)));
                    (fw2, n6, pending)
                },
                _ => (fw, curr, pending),
            },
            DoubleOperandOpcode::Sub | DoubleOperandOpcode::Subi => {
                let va = spec_val_a(values, d.rs2).unwrap_or((0u8, 0u8));
                (
                    fw.update(
                        curr as int,
                        mi_encode(
                            Microinstruction {
                                alu: 0b000111111,
                                c_bus: spec_c_code(d.rd@),
                                a: va.0,
                                b: spec_reg_b_code(d.rs1),
                                immediate: va.1,
                                ..base_mi(n0)
                            },
                        ),
                    ),
                    n0,
                    pending,
                )
            },
            _ => {
                let vb = spec_val_b(values, d.rs2).unwrap_or((0u8, 0u8));
                (
                    fw.update(
                        curr as int,
                        mi_encode(
                            Microinstruction {
                                alu: double_alu(d.opcode),
                                c_bus: spec_c_code(d.rd@),
                                a: spec_reg_a_code(d.rs1),
                                b: vb.0,
                                immediate: vb.1,
                                ..base_mi(n0)
                            },
                        ),
                    ),
                    n0,
                    pending,
                )
            },
        },
        Instruction::SingleOperand(sgl) => {
            let va = spec_val_a(values, sgl.rs1).unwrap_or((0u8, 0u8));
            (
                fw.update(
                    curr as int,
                    mi_encode(
                        Microinstruction {
                            alu: single_alu(sgl.opcode),
                            c_bus: spec_c_code(sgl.rd@),
                            a: va.0,
                            immediate: va.1,
                            ..base_mi(n0)
                        },
                    ),
                ),
                n0,
                pending,
            )
        },
        Instruction::NoOperand(op) => (
            fw.update(
                curr as int,
                match op {
                    NoOperandOpcode::Halt => Microinstruction::HALT as u64,
                    NoOperandOpcode::Nop => mi_encode(base_mi(n0)),
                },
            ),
            n0,
            pending,
        ),
        Instruction::Branch(b) => {
            let branched = (n0 | 0x100) as u16;
            let bound = assoc_lookup(addrs, b.label@);
            let br = match bound {
                Some(v) => Microinstruction { next: v as u16, ..base_mi(branched) },
                None => base_mi(branched),
            };
            let first = branch_first_mi(b, n0);
            if b.opcode is Bne {
                let second = Microinstruction {
                    next: (n0 + 1) as u16,
                    a: spec_reg_a_code(b.rs2),
                    b: spec_reg_b_code(b.rs1),
                    ..first
                };
                (
                    fw.update(curr as int, mi_encode(first)).update(
                        n0 as int,
                        mi_encode(second),
                    ).update(branched as int, mi_encode(br)).update(
                        ((branched + 1) as u16 & 0x1ff) as int,
                        mi_encode(br),
                    ),
                    cs_next_addr(n0),
                    if bound is None {
                        pending.push((b.label@, branched, base_mi(branched))).push(
                            (b.label@, (branched + 1) as u16, base_mi(branched)),
                        )
                    } else {
                        pending
                    },
                )
            } else {
                (
                    fw.update(curr as int, mi_encode(first)).update(
                        branched as int,
                        mi_encode(br),
                    ),
                    n0,
                    if bound is None {
                        pending.push((b.label@, branched, base_mi(branched)))
                    } else {
                        pending
                    },
                )
            }
        },
        Instruction::Jal(label) => match assoc_lookup(addrs, label@) {
            Some(v) => (
                fw.update(
                    curr as int,
                    mi_encode(Microinstruction { next: v as u16, ..base_mi(n0) }),
                ),
                n0,
                pending,
            ),
            None => (
                fw.update(curr as int, mi_encode(base_mi(n0))),
                n0,
                pending.push((label@, curr, base_mi(n0))),
            ),
        },
        Instruction::WriteInstruction(addr, rd) => {
            let imm = spec_iol(values, addr).unwrap_or(0u8);
            let n1 = cs_next_addr(n0);
            (
                fw.update(
                    curr as int,
                    mi_encode(
                        Microinstruction {
                            alu: 0b000011000,
                            c_bus: 0x80000,
                            a: spec_reg_a_code(rd),
                            ..base_mi(n0)
                        },
                    ),
                ).update(
                    n0 as int,
                    mi_encode(
                        Microinstruction {
                            alu: 0b000011000,
                            c_bus: 0x40000,
                            mem: 0b100,
                            a: 0b01000,
                            immediate: imm,
                            ..base_mi(n1)
                        },
                    ),
                ),
                n1,
                pending,
            )
        },
        Instruction::ReadInstruction(addr, rds) => {
            let imm = spec_iol(values, addr).unwrap_or(0u8);
            let n1 = cs_next_addr(n0);
            (
                fw.update(
                    curr as int,
                    mi_encode(
                        Microinstruction {
                            alu: 0b000011000,
                            c_bus: 0x40000,
                            mem: 0b010,
                            a: 0b01000,
                            immediate: imm,
                            ..base_mi(n0)
                        },
                    ),
                ).update(
                    n0 as int,
                    mi_encode(
                        Microinstruction {
                            alu: 0b000011000,
                            c_bus: spec_c_code(rds@),
                            a: 0,
                            ..base_mi(n1)
                        },
                    ),
                ),
                n1,
                pending,
            )
        },
    }
}

/// Whether every instruction of a block lowers without error; lowering
/// touches no label map, so each stands or falls on the maps the block
/// started with.
pub open spec fn insts_ok(values: Seq<(Seq<char>, u8)>, insts: Seq<Instruction>) -> bool {
    forall|i: int| 0 <= i < insts.len() ==> inst_ok(values, #[trigger] insts[i])
}

/// The store image, fill address and pending list after a block of
/// instructions lowers in order.
pub open spec fn insts_effect(
    values: Seq<(Seq<char>, u8)>,
    addrs: Seq<(Seq<char>, u8)>,
    pending: Seq<(Seq<char>, u16, Microinstruction)>,
    fw: Seq<u64>,
    curr: u16,
    insts: Seq<Instruction>,
) -> (Seq<u64>, u16, Seq<(Seq<char>, u16, Microinstruction)>)
    decreases insts.len(),
{
    if insts.len() == 0 {
        (fw, curr, pending)
    } else {
        let e = inst_effect(values, addrs, pending, fw, curr, insts.first());
        insts_effect(values, addrs, e.2, e.0, e.1, insts.drop_first())
    }
}

/// Whether one text segment lowers without error.
pub open spec fn seg_ok(values: Seq<(Seq<char>, u8)>, seg: TextSegment) -> bool {
    match seg {
        TextSegment::LabeledSection { label, instructions } => insts_ok(values, instructions@),
        TextSegment::GlobalSection { label } => true,
    }
}

/// Whether every segment of a text section lowers without error.
pub open spec fn segs_ok(values: Seq<(Seq<char>, u8)>, segs: Seq<TextSegment>) -> bool {
    forall|i: int| 0 <= i < segs.len() ==> seg_ok(values, #[trigger] segs[i])
}

/// The label map, pending list, store image and fill address after one
/// text segment lowers: a labeled block binds its label to the fill
/// address (truncated to the low byte) and lowers its instructions; a
/// global declaration changes nothing.
pub open spec fn seg_effect(
    values: Seq<(Seq<char>, u8)>,
    addrs: Seq<(Seq<char>, u8)>,
    pending: Seq<(Seq<char>, u16, Microinstruction)>,
    fw: Seq<u64>,
    curr: u16,
    seg: TextSegment,
) -> (Seq<(Seq<char>, u8)>, Seq<(Seq<char>, u16, Microinstruction)>, Seq<u64>, u16) {
    match seg {
        TextSegment::LabeledSection { label, instructions } => {
            let addrs2 = addrs.push((label@, curr as u8));
            let e = insts_effect(values, addrs2, pending, fw, curr, instructions@);
            (addrs2, e.2, e.0, e.1)
        },
        TextSegment::GlobalSection { label } => (addrs, pending, fw, curr),
    }
}

/// The label map, pending list, store image and fill address after a
/// run of text segments lowers in order.
pub open spec fn segs_effect(
    values: Seq<(Seq<char>, u8)>,
    addrs: Seq<(Seq<char>, u8)>,
    pending: Seq<(Seq<char>, u16, Microinstruction)>,
    fw: Seq<u64>,
    curr: u16,
    segs: Seq<TextSegment>,
) -> (Seq<(Seq<char>, u8)>, Seq<(Seq<char>, u16, Microinstruction)>, Seq<u64>, u16)
    decreases segs.len(),
{
    if segs.len() == 0 {
        (addrs, pending, fw, curr)
    } else {
        let e = seg_effect(values, addrs, pending, fw, curr, segs.first());
        segs_effect(values, e.0, e.1, e.2, e.3, segs.drop_first())
    }
}

impl AsmEvaluator {
    /// Evaluate one data definition: a byte binds its label to the
    /// constant; a word appends to the RAM image and binds its label to
    /// the slot's index.
    pub fn eval_data_seg(&mut self, data: &DataWrited)
        ensures
            final(self).addr_view() == old(self).addr_view(),
            final(self).pending_view() == old(self).pending_view(),
            final(self).values_view() == old(self).values_view().push(
                (data.label@, spec_data_binding(old(self).ram_view().len(), data.kind)),
            ),
            final(self).ram_view() == match data.kind {
                DataKind::Byte(_) => old(self).ram_view(),
                DataKind::Word(w) => old(self).ram_view().push(w as u32),
            },
    {
        match &data.kind {
            DataKind::Byte(b) => {
                self.values.push((data.label.clone(), *b));
            },
            DataKind::Word(w) => {
                let idx: u8 = #[verifier::truncate] (self.ram.len() as u8);
                self.values.push((data.label.clone(), idx));
                self.ram.push(*w as u32);
            },
        }
        proof {
            assert(self.values_view() =~= old(self).values_view().push(
                (data.label@, spec_data_binding(old(self).ram_view().len(), data.kind)),
            ));
        }
    }

    /// Lower one instruction into the store being built.
    fn eval_inst(&mut self, inst: &Instruction, state: &mut CsState) -> (r: Result<(), AsmError>)
        requires
            old(state).wf(),
        ensures
            final(state).wf(),
            final(self).values_view() == old(self).values_view(),
            final(self).addr_view() == old(self).addr_view(),
            final(self).ram_view() == old(self).ram_view(),
            final(state).builder.mpc_view() == old(state).builder.mpc_view(),
            (r is Ok <==> inst_ok(old(self).values_view(), *inst)),
            r is Ok ==> ({
                let e = inst_effect(
                    old(self).values_view(),
                    old(self).addr_view(),
                    old(self).pending_view(),
                    old(state).builder.firmware_view(),
                    old(state).curr_addr,
                    *inst,
                );
                &&& final(state).builder.firmware_view() == e.0
                &&& final(state).curr_addr == e.1
                &&& final(self).pending_view() == e.2
            }),
            r is Err ==> *final(state) == *old(state) && final(self).pending_view() == old(
                self,
            ).pending_view(),
    {
        match inst {
            Instruction::DoubleOperand(i) => self.eval_double_op_inst(
                &i.opcode,
                &i.rd,
                &i.rs1,
                &i.rs2,
                state,
            ),
            Instruction::SingleOperand(i) => self.eval_single_op_inst(
                &i.opcode,
                &i.rd,
                &i.rs1,
                state,
            ),
            Instruction::NoOperand(opcode) => {
                self.eval_no_op_inst(opcode, state);
                Ok(())
            },
            Instruction::Branch(i) => self.eval_branch_inst(i, state),
            Instruction::Jal(label) => {
                self.eval_jal_inst(label, state);
                Ok(())
            },
            Instruction::WriteInstruction(addr, rd) => self.eval_write_inst(addr, rd, state),
            Instruction::ReadInstruction(addr, rds) => self.eval_read_inst(addr, rds, state),
        }
    }

    /// Evaluate one text segment: a labeled block binds its label to the
    /// current store address (truncated to the low byte) and lowers its
    /// instructions in order; a global declaration binds nothing and
    /// emits nothing.
    #[verifier::loop_isolation(false)]
    pub fn eval_txt_seg(&mut self, txt_seg: &TextSegment, state: &mut CsState) -> (r: Result<
        (),
        AsmError,
    >)
        requires
            old(state).wf(),
        ensures
            final(state).wf(),
            final(self).values_view() == old(self).values_view(),
            final(self).ram_view() == old(self).ram_view(),
            final(state).builder.mpc_view() == old(state).builder.mpc_view(),
            (match *txt_seg {
                TextSegment::LabeledSection { label, instructions } => {
                    let addrs2 = old(self).addr_view().push((label@, old(state).curr_addr as u8));
                    &&& final(self).addr_view() == addrs2
                    &&& (r is Ok <==> insts_ok(old(self).values_view(), instructions@))
                    &&& (r is Ok ==> ({
                        let e = insts_effect(
                            old(self).values_view(),
                            addrs2,
                            old(self).pending_view(),
                            old(state).builder.firmware_view(),
                            old(state).curr_addr,
                            instructions@,
                        );
                        &&& final(state).builder.firmware_view() == e.0
                        &&& final(state).curr_addr == e.1
                        &&& final(self).pending_view() == e.2
                    }))
                },
                TextSegment::GlobalSection { label } => r is Ok && final(self).addr_view() == old(
                    self,
                ).addr_view() && *final(state) == *old(state) && final(self).pending_view() == old(
                    self,
                ).pending_view(),
            }),
    {
        match txt_seg {
            TextSegment::LabeledSection { label, instructions } => {
                let bind: u8 = #[verifier::truncate] (state.addr() as u8);
                self.addr.push((label.clone(), bind));
                proof {
                    assert(self.addr_view() =~= old(self).addr_view().push(
                        (label@, old(state).curr_addr as u8),
                    ));
                    assert(instructions@.skip(0) =~= instructions@);
                }
                let ghost addrs2 = self.addr_view();
                let ghost values = self.values_view();
                let ghost pend0 = self.pending_view();
                let ghost fw0 = state.builder.firmware_view();
                let ghost curr0 = state.curr_addr;
                let mut i: usize = 0;
                while i < instructions.len()
                    invariant
                        state.wf(),
                        i <= instructions@.len(),
                        self.values_view() == old(self).values_view(),
                        self.ram_view() == old(self).ram_view(),
                        self.addr_view() == addrs2,
                        state.builder.mpc_view() == old(state).builder.mpc_view(),
                        forall|j: int|
                            0 <= j < i ==> inst_ok(values, #[trigger] instructions@[j]),
                        insts_effect(values, addrs2, pend0, fw0, curr0, instructions@)
                            == insts_effect(
                            values,
                            addrs2,
                            self.pending_view(),
                            state.builder.firmware_view(),
                            state.curr_addr,
                            instructions@.skip(i as int),
                        ),
                    decreases instructions@.len() - i,
                {
                    proof {
                        assert(instructions@.skip(i as int).first() == instructions@[i as int]);
                        assert(instructions@.skip(i as int).drop_first() =~= instructions@.skip(
                            i + 1,
                        ));
                    }
                    match self.eval_inst(&instructions[i], state) {
                        Ok(()) => {},
                        Err(e) => {
                            return Err(e);
                        },
                    }
                    i = i + 1;
                }
                proof {
                    assert(instructions@.skip(instructions@.len() as int) =~= Seq::<
                        Instruction,
                    >::empty());
                }
                Ok(())
            },
            TextSegment::GlobalSection { .. } => Ok(()),
        }
    }

    /// The terminal resolution pass: look every pending label up and
    /// rewrite the stored word's NEXT field with the bound address. Every
    /// pending label must be bound by now; an unbound one fails the
    /// whole assembly.
    #[verifier::loop_isolation(false)]
    pub fn resolve_unreachable(&mut self, state: &mut CsState) -> (r: Result<(), AsmError>)
        requires
            old(state).wf(),
        ensures
            final(state).wf(),
            final(self).values_view() == old(self).values_view(),
            final(self).addr_view() == old(self).addr_view(),
            final(self).ram_view() == old(self).ram_view(),
            final(state).curr_addr == old(state).curr_addr,
            final(state).builder.mpc_view() == old(state).builder.mpc_view(),
            (r is Ok <==> all_pending_bound(old(self).pending_view(), old(self).addr_view())),
            r is Ok ==> final(self).pending_view() == Seq::<
                (Seq<char>, u16, Microinstruction),
            >::empty() && final(state).builder.firmware_view() == spec_resolved(
                old(self).pending_view(),
                old(self).addr_view(),
                old(state).builder.firmware_view(),
            ),
            r is Err ==> (r matches Err(e) && e is UnboundLabel),
    {
        let ghost pall = self.pending_view();
        let ghost addrs = self.addr_view();
        let ghost fw0 = state.builder.firmware_view();
        proof {
            assert(pall.skip(0) =~= pall);
        }
        let mut i: usize = 0;
        while i < self.unreachable.len()
            invariant
                state.wf(),
                i <= self.unreachable@.len(),
                self.pending_view() == pall,
                self.addr_view() == addrs,
                self.values_view() == old(self).values_view(),
                self.ram_view() == old(self).ram_view(),
                state.curr_addr == old(state).curr_addr,
                state.builder.mpc_view() == old(state).builder.mpc_view(),
                spec_resolved(pall, addrs, fw0) == spec_resolved(
                    pall.skip(i as int),
                    addrs,
                    state.builder.firmware_view(),
                ),
                forall|j: int| 0 <= j < i ==> assoc_lookup(addrs, #[trigger] pall[j].0) is Some,
            decreases self.unreachable@.len() - i,
        {
            let cs_addr: u16 = self.unreachable[i].1;
            let mut mi: Microinstruction = self.unreachable[i].2;
            match lookup_entry(&self.addr, &self.unreachable[i].0) {
                Some(a) => {
                    proof {
                        assert(pall.skip(i as int).first() == pall[i as int]);
                        assert(pall.skip(i as int).drop_first() =~= pall.skip(i + 1));
                    }
                    mi.next = a as u16;
                    state.set_instr(cs_addr, mi.get());
                },
                None => {
                    proof {
                        assert(assoc_lookup(addrs, pall[i as int].0) is None);
                    }
                    return Err(AsmError::UnboundLabel(self.unreachable[i].0.clone()));
                },
            }
            i = i + 1;
        }
        proof {
            assert(pall.skip(pall.len() as int) =~= Seq::<
                (Seq<char>, u16, Microinstruction),
            >::empty());
        }
        self.unreachable.clear();
        proof {
            assert(self.pending_view() =~= Seq::<(Seq<char>, u16, Microinstruction)>::empty());
        }
        Ok(())
    }

    /// Evaluate one section into a fresh control store. A data section
    /// binds its labels and builds the RAM image; a text section lowers
    /// its segments in emission order. Forward references across
    /// sections are resolved separately by the resolution pass.
    #[verifier::loop_isolation(false)]
    pub fn eval(&mut self, secs: &Sections) -> (r: Result<CtrlStore, AsmError>)
        ensures
            (r matches Ok(cs) ==> cs.wf() && cs@.mpc == 0),
            (match *secs {
                Sections::DataSection(d) => r is Ok && final(self).addr_view() == old(
                    self,
                ).addr_view() && final(self).pending_view() == old(self).pending_view() && ({
                    let p = spec_data_eval(old(self).values_view(), old(self).ram_view(), d@);
                    final(self).values_view() == p.0 && final(self).ram_view() == p.1
                }) && (r matches Ok(cs) ==> cs@.firmware == Seq::new(CS_ADDRS as nat, |i: int| 0u64)),
                Sections::TextSection(t) => {
                    &&& final(self).values_view() == old(self).values_view()
                    &&& final(self).ram_view() == old(self).ram_view()
                    &&& (r is Ok <==> segs_ok(old(self).values_view(), t@))
                    &&& (r matches Ok(cs) ==> ({
                        let e = segs_effect(
                            old(self).values_view(),
                            old(self).addr_view(),
                            old(self).pending_view(),
                            Seq::new(CS_ADDRS as nat, |i: int| 0u64),
                            0,
                            t@,
                        );
                        &&& final(self).addr_view() == e.0
                        &&& final(self).pending_view() == e.1
                        &&& cs@.firmware == e.2
                    }))
                },
            }),
    {
        let mut cs_state = CsState::new();
        match secs {
            Sections::TextSection(txt_segs) => {
                let ghost values = self.values_view();
                let ghost addrs0 = self.addr_view();
                let ghost pend0 = self.pending_view();
                let ghost fw0 = cs_state.builder.firmware_view();
                proof {
                    assert(txt_segs@.skip(0) =~= txt_segs@);
                }
                let mut i: usize = 0;
                while i < txt_segs.len()
                    invariant
                        *secs == Sections::TextSection(*txt_segs),
                        cs_state.wf(),
                        cs_state.builder.mpc_view() == 0,
                        i <= txt_segs@.len(),
                        self.values_view() == old(self).values_view(),
                        self.ram_view() == old(self).ram_view(),
                        forall|j: int| 0 <= j < i ==> seg_ok(values, #[trigger] txt_segs@[j]),
                        segs_effect(values, addrs0, pend0, fw0, 0, txt_segs@) == segs_effect(
                            values,
                            self.addr_view(),
                            self.pending_view(),
                            cs_state.builder.firmware_view(),
                            cs_state.curr_addr,
                            txt_segs@.skip(i as int),
                        ),
                    decreases txt_segs@.len() - i,
                {
                    proof {
                        assert(txt_segs@.skip(i as int).first() == txt_segs@[i as int]);
                        assert(txt_segs@.skip(i as int).drop_first() =~= txt_segs@.skip(i + 1));
                    }
                    match self.eval_txt_seg(&txt_segs[i], &mut cs_state) {
                        Ok(()) => {},
                        Err(e) => {
                            proof {
                                assert(!seg_ok(values, txt_segs@[i as int]));
                            }
                            return Err(e);
                        },
                    }
                    i = i + 1;
                }
                proof {
                    assert(txt_segs@.skip(txt_segs@.len() as int) =~= Seq::<TextSegment>::empty());
                }
            },
            Sections::DataSection(data) => {
                proof {
                    assert(data@.skip(0) =~= data@);
                }
                let mut i: usize = 0;
                while i < data.len()
                    invariant
                        cs_state.wf(),
                        i <= data@.len(),
                        self.addr_view() == old(self).addr_view(),
                        self.pending_view() == old(self).pending_view(),
                        spec_data_eval(old(self).values_view(), old(self).ram_view(), data@)
                            == spec_data_eval(
                            self.values_view(),
                            self.ram_view(),
                            data@.skip(i as int),
                        ),
                    decreases data@.len() - i,
                {
                    proof {
                        assert(data@.skip(i as int).first() == data@[i as int]);
                        assert(data@.skip(i as int).drop_first() =~= data@.skip(i + 1));
                    }
                    self.eval_data_seg(&data[i]);
                    i = i + 1;
                }
                proof {
                    assert(data@.skip(data@.len() as int) =~= Seq::<DataWrited>::empty());
                }
            },
        }
        Ok(cs_state.build_cs())
    }
}


/// The data-label map and RAM image after every data section of a
/// program, in order; text sections bind no data.
pub open spec fn data_sections_eval(
    values: Seq<(Seq<char>, u8)>,
    ram: Seq<u32>,
    sections: Seq<Sections>,
) -> (Seq<(Seq<char>, u8)>, Seq<u32>)
    decreases sections.len(),
{
    if sections.len() == 0 {
        (values, ram)
    } else {
        match sections.first() {
            Sections::DataSection(d) => {
                let p = spec_data_eval(values, ram, d@);
                data_sections_eval(p.0, p.1, sections.drop_first())
            },
            Sections::TextSection(t) => data_sections_eval(values, ram, sections.drop_first()),
        }
    }
}

/// Whether every text section of a program lowers without error.
pub open spec fn text_sections_ok(values: Seq<(Seq<char>, u8)>, sections: Seq<Sections>) -> bool {
    forall|i: int|
        0 <= i < sections.len() ==> match #[trigger] sections[i] {
            Sections::TextSection(t) => segs_ok(values, t@),
            Sections::DataSection(_) => true,
        }
}

/// The label map, pending list, store image and fill address after
/// every text section of a program lowers, in order; data sections
/// emit nothing.
pub open spec fn text_sections_effect(
    values: Seq<(Seq<char>, u8)>,
    addrs: Seq<(Seq<char>, u8)>,
    pending: Seq<(Seq<char>, u16, Microinstruction)>,
    fw: Seq<u64>,
    curr: u16,
    sections: Seq<Sections>,
) -> (Seq<(Seq<char>, u8)>, Seq<(Seq<char>, u16, Microinstruction)>, Seq<u64>, u16)
    decreases sections.len(),
{
    if sections.len() == 0 {
        (addrs, pending, fw, curr)
    } else {
        match sections.first() {
            Sections::TextSection(t) => {
                let e = segs_effect(values, addrs, pending, fw, curr, t@);
                text_sections_effect(values, e.0, e.1, e.2, e.3, sections.drop_first())
            },
            Sections::DataSection(_) => text_sections_effect(
                values,
                addrs,
                pending,
                fw,
                curr,
                sections.drop_first(),
            ),
        }
    }
}

/// One parse outcome (sections and collected errors) accounting for an
/// assembly result: parse errors are fatal, and otherwise the result is
/// the lowering of those sections — the data fold, the text fold from a
/// zeroed image, and back-patch resolution — exactly as
/// [`AsmEvaluator::eval_program`] states.
pub open spec fn pipeline_outcome(
    pre: AsmEvaluator,
    post: AsmEvaluator,
    r: Result<(CtrlStore, Vec<u32>), AsmError>,
    secs: Seq<Sections>,
    errs: Seq<ParserError>,
) -> bool {
    &&& errs.len() > 0 ==> (r matches Err(e) && e is ParseErrors)
    &&& (r is Ok ==> errs.len() == 0)
    &&& (errs.len() == 0 ==> ({
        let p = data_sections_eval(pre.values_view(), pre.ram_view(), secs);
        let e = text_sections_effect(
            p.0,
            pre.addr_view(),
            pre.pending_view(),
            Seq::new(CS_ADDRS as nat, |i: int| 0u64),
            0,
            secs,
        );
        &&& post.values_view() == p.0
        &&& post.ram_view() == p.1
        &&& (r is Ok <==> text_sections_ok(p.0, secs) && all_pending_bound(e.1, e.0))
        &&& (r matches Ok(out) ==> post.addr_view() == e.0 && out.0@.firmware == spec_resolved(
            e.1,
            e.0,
            e.2,
        ))
    }))
}

/// A copy of a word vector.
fn copy_words(v: &Vec<u32>) -> (r: Vec<u32>)
    ensures
        r@ == v@,
{
    let mut out: Vec<u32> = Vec::new();
    let mut i: usize = 0;
    while i < v.len()
        invariant
            i <= v@.len(),
            out@ == v@.take(i as int),
        decreases v@.len() - i,
    {
        out.push(v[i]);
        proof {
            assert(out@ =~= v@.take(i + 1));
        }
        i = i + 1;
    }
    proof {
        assert(v@.take(v@.len() as int) =~= v@);
    }
    out
}

impl AsmEvaluator {
    /// Assemble a parsed program: any parse error is fatal; otherwise
    /// the data sections bind their labels and build the RAM image, the
    /// text sections are lowered in order, and the resolution pass
    /// patches every forward reference. Returns the control store and
    /// the RAM image.
    #[verifier::loop_isolation(false)]
    pub fn eval_program(&mut self, prog: Program) -> (r: Result<(CtrlStore, Vec<u32>), AsmError>)
        ensures
            prog.errors@.len() > 0 ==> (r matches Err(e) && e is ParseErrors),
            r is Ok ==> prog.errors@.len() == 0,
            prog.errors@.len() == 0 ==> ({
                let p = data_sections_eval(
                    old(self).values_view(),
                    old(self).ram_view(),
                    prog.sections@,
                );
                let e = text_sections_effect(
                    p.0,
                    old(self).addr_view(),
                    old(self).pending_view(),
                    Seq::new(CS_ADDRS as nat, |i: int| 0u64),
                    0,
                    prog.sections@,
                );
                &&& final(self).values_view() == p.0
                &&& final(self).ram_view() == p.1
                &&& (r is Ok <==> text_sections_ok(p.0, prog.sections@) && all_pending_bound(
                    e.1,
                    e.0,
                ))
                &&& (r matches Ok(out) ==> {
                    &&& final(self).addr_view() == e.0
                    &&& final(self).pending_view().len() == 0
                    &&& out.0.wf()
                    &&& out.0@.firmware == spec_resolved(e.1, e.0, e.2)
                    &&& out.0@.mpc == 0
                    &&& out.1@ == p.1
                })
            }),
    {
        if prog.errors.len() > 0 {
            return Err(AsmError::ParseErrors(prog.errors));
        }
        let mut cs = CsState::new();
        let ghost v0 = self.values_view();
        let ghost r0 = self.ram_view();
        proof {
            assert(prog.sections@.skip(0) =~= prog.sections@);
        }

        let mut i: usize = 0;
        while i < prog.sections.len()
            invariant
                i <= prog.sections@.len(),
                self.addr_view() == old(self).addr_view(),
                self.pending_view() == old(self).pending_view(),
                data_sections_eval(v0, r0, prog.sections@) == data_sections_eval(
                    self.values_view(),
                    self.ram_view(),
                    prog.sections@.skip(i as int),
                ),
            decreases prog.sections@.len() - i,
        {
            proof {
                assert(prog.sections@.skip(i as int).first() == prog.sections@[i as int]);
                assert(prog.sections@.skip(i as int).drop_first() =~= prog.sections@.skip(i + 1));
            }
            match &prog.sections[i] {
                Sections::DataSection(data) => {
                    proof {
                        assert(data@.skip(0) =~= data@);
                    }
                    let ghost vi = self.values_view();
                    let ghost ri = self.ram_view();
                    let mut j: usize = 0;
                    while j < data.len()
                        invariant
                            j <= data@.len(),
                            self.addr_view() == old(self).addr_view(),
                            self.pending_view() == old(self).pending_view(),
                            spec_data_eval(vi, ri, data@) == spec_data_eval(
                                self.values_view(),
                                self.ram_view(),
                                data@.skip(j as int),
                            ),
                        decreases data@.len() - j,
                    {
                        proof {
                            assert(data@.skip(j as int).first() == data@[j as int]);
                            assert(data@.skip(j as int).drop_first() =~= data@.skip(j + 1));
                        }
                        self.eval_data_seg(&data[j]);
                        j = j + 1;
                    }
                    proof {
                        assert(data@.skip(data@.len() as int) =~= Seq::<DataWrited>::empty());
                    }
                },
                Sections::TextSection(_) => {},
            }
            i = i + 1;
        }
        proof {
            assert(prog.sections@.skip(prog.sections@.len() as int) =~= Seq::<Sections>::empty());
        }
        let ghost p0 = self.values_view();
        let ghost addrs0 = self.addr_view();
        let ghost pend0 = self.pending_view();
        let ghost fw0 = cs.builder.firmware_view();

        let mut i: usize = 0;
        while i < prog.sections.len()
            invariant
                i <= prog.sections@.len(),
                cs.wf(),
                cs.builder.mpc_view() == 0,
                self.values_view() == p0,
                self.ram_view() == data_sections_eval(v0, r0, prog.sections@).1,
                forall|k: int|
                    0 <= k < i ==> match #[trigger] prog.sections@[k] {
                        Sections::TextSection(t) => segs_ok(p0, t@),
                        Sections::DataSection(_) => true,
                    },
                text_sections_effect(p0, addrs0, pend0, fw0, 0, prog.sections@)
                    == text_sections_effect(
                    p0,
                    self.addr_view(),
                    self.pending_view(),
                    cs.builder.firmware_view(),
                    cs.curr_addr,
                    prog.sections@.skip(i as int),
                ),
            decreases prog.sections@.len() - i,
        {
            proof {
                assert(prog.sections@.skip(i as int).first() == prog.sections@[i as int]);
                assert(prog.sections@.skip(i as int).drop_first() =~= prog.sections@.skip(i + 1));
            }
            match &prog.sections[i] {
                Sections::TextSection(segs) => {
                    proof {
                        assert(segs@.skip(0) =~= segs@);
                    }
                    let ghost ai = self.addr_view();
                    let ghost pi = self.pending_view();
                    let ghost fi = cs.builder.firmware_view();
                    let ghost ci = cs.curr_addr;
                    let mut j: usize = 0;
                    while j < segs.len()
                        invariant
                            j <= segs@.len(),
                            cs.wf(),
                            cs.builder.mpc_view() == 0,
                            self.values_view() == p0,
                            self.ram_view() == data_sections_eval(v0, r0, prog.sections@).1,
                            forall|k: int| 0 <= k < j ==> seg_ok(p0, #[trigger] segs@[k]),
                            segs_effect(p0, ai, pi, fi, ci, segs@) == segs_effect(
                                p0,
                                self.addr_view(),
                                self.pending_view(),
                                cs.builder.firmware_view(),
                                cs.curr_addr,
                                segs@.skip(j as int),
                            ),
                        decreases segs@.len() - j,
                    {
                        proof {
                            assert(segs@.skip(j as int).first() == segs@[j as int]);
                            assert(segs@.skip(j as int).drop_first() =~= segs@.skip(j + 1));
                        }
                        match self.eval_txt_seg(&segs[j], &mut cs) {
                            Ok(()) => {},
                            Err(e) => {
                                proof {
                                    assert(!seg_ok(p0, segs@[j as int]));
                                }
                                return Err(e);
                            },
                        }
                        j = j + 1;
                    }
                    proof {
                        assert(segs@.skip(segs@.len() as int) =~= Seq::<TextSegment>::empty());
                    }
                },
                Sections::DataSection(_) => {},
            }
            i = i + 1;
        }
        proof {
            assert(prog.sections@.skip(prog.sections@.len() as int) =~= Seq::<Sections>::empty());
        }

        match self.resolve_unreachable(&mut cs) {
            Ok(()) => {},
            Err(e) => {
                return Err(e);
            },
        }
        let ram = copy_words(&self.ram);
        proof {
            assert(ram@ == self.ram_view());
        }
        Ok((cs.build_cs(), ram))
    }

    /// Assemble a whole source text: scan it, parse it, and lower the
    /// program. Returns the control store and the RAM image. The result
    /// is the assembly of whatever program the parser produced: some
    /// parse outcome (sections and collected errors) accounts for it —
    /// parse errors are fatal, and otherwise the store and images are
    /// the lowering folds of those sections, exactly as for
    /// [`Self::eval_program`].
    pub fn evaluate_buffer(&mut self, buf: &str) -> (r: Result<(CtrlStore, Vec<u32>), AsmError>)
        ensures
            r is Ok ==> final(self).pending_view().len() == 0,
            (r matches Ok(p) ==> p.0.wf() && p.0@.mpc == 0 && p.1@ == final(self).ram_view()),
            exists|secs: Seq<Sections>, errs: Seq<ParserError>|
                #[trigger] pipeline_outcome(*old(self), *final(self), r, secs, errs),
    {
        let mut lx = Lexer::new(buf);
        let toks = lx.get_deez_toks_w_ctx();
        let mut parser = Parser::new(toks);
        let program = parser.get_deez_program();
        let ghost gsecs: Seq<Sections> = program.sections@;
        let ghost gerrs: Seq<ParserError> = program.errors@;
        let r = self.eval_program(program);
        proof {
            assert(pipeline_outcome(*old(self), *self, r, gsecs, gerrs));
        }
        r
    }
}


/// The packed word of a branch's comparing microinstruction carries its
/// fall-through address and JAM bits exactly: the MPC update takes the
/// fall-through when the condition does not fire, and its `| 0x100`
/// taken slot when it does — Z for `Beq`, N for the others; the JMPC
/// path is never used.
pub proof fn lemma_branch_dispatch(ins: BranchInstruction, next: u16, z: bool, n: bool, mbr: u8)
    requires
        next < 512,
    ensures
        ({
            let op = mi_opcode(mi_encode(branch_first_mi(ins, next)));
            &&& !opcode_jmpc(op)
            &&& opcode_next(op) == next
            &&& (ins.opcode is Beq ==> next_mpc(op, z, n, mbr) == if z {
                next | 0x100
            } else {
                next
            })
            &&& (!(ins.opcode is Beq) ==> next_mpc(op, z, n, mbr) == if n {
                next | 0x100
            } else {
                next
            })
        }),
{
    let m = branch_first_mi(ins, next);
    let jam: u8 = m.jam;
    let alu: u16 = m.alu;
    let c: u32 = m.c_bus;
    let mem: u8 = m.mem;
    let a: u8 = m.a;
    let b: u8 = m.b;
    let imm: u8 = m.immediate;
    assert(jam == 1 || jam == 2);
    assert(a < 32 && b < 32);
    let w = mi_encode(m);
    assert(w == ((((((((((((((next as u64) << 3) | (jam as u64)) << 9) | (alu as u64)) << 20) | (
    c as u64)) << 3) | (mem as u64)) << 5) | (a as u64)) << 5) | (b as u64)) << 8) | (imm as u64));
    assert({
        let w2 = ((((((((((((((next as u64) << 3) | (jam as u64)) << 9) | (alu as u64)) << 20) | (
        c as u64)) << 3) | (mem as u64)) << 5) | (a as u64)) << 5) | (b as u64)) << 8) | (imm
            as u64);
        (next < 512 && jam < 8 && alu < 512 && c < 0x100000 && mem < 8 && a < 32 && b < 32) ==> (
        w2 >> 50) as u16 == ((next << 3) | jam as u16)
    }) by (bit_vector);
    let v: u16 = (next << 3) | jam as u16;
    assert(next < 512 && (jam == 1 || jam == 2) ==> {
        let v2 = (next << 3) | jam as u16;
        &&& ((v2 & 0x0fff) >> 3) == next
        &&& (((v2 >> 2) & 1 == 1) == false)
        &&& ((v2 & 1 == 1) == (jam == 1))
        &&& (((v2 >> 1) & 1 == 1) == (jam == 2))
        &&& (next | 0x100) == (next | 0x100)
    }) by (bit_vector);
    assert(opcode_next(v) == next);
}

/// An idle (NOP) microinstruction word does nothing to the machine:
/// begin-of-cycle consumes nothing from the fetch queue, and its
/// end-of-cycle leaves every register, the queue and the RAM unchanged,
/// moving only the MPC to the fall-through address.
pub proof fn lemma_nop_cycle(next: u16, regs: RegistersView, ram: Seq<u32>)
    requires
        next < 512,
        regs.gen.len() == 16,
    ensures
        ({
            let w = mi_encode(base_mi(next));
            let st = decoded_state(w, regs);
            &&& begin_cycle_regs(w, regs) == regs
            &&& end_cycle_spec(st, regs, ram).ok
            &&& end_cycle_spec(st, regs, ram).regs == regs
            &&& end_cycle_spec(st, regs, ram).ram == ram
            &&& end_cycle_spec(st, regs, ram).mpc == next
        }),
{
    let w = mi_encode(base_mi(next));
    assert(next < 512 ==> {
        let w2 = ((((((((((((((next as u64) << 3) | (0u64)) << 9) | (0u64)) << 20) | (0u64)) << 3)
            | (0u64)) << 5) | (0x1fu64)) << 5) | (0x1fu64)) << 8) | (0u64);
        &&& (w2 >> 50) as u16 == (next << 3)
        &&& ((w2 >> 41) & 0x1ff) as u16 == 0
        &&& ((w2 >> 21) & 0xfffff) as u32 == 0
        &&& ((w2 >> 18) & 0x7) as u8 == 0
        &&& ((w2 >> 13) & 0x1f) as u8 == 0x1f
        &&& ((w2 >> 8) & 0x1f) as u8 == 0x1f
        &&& (w2 & 0xff) as u8 == 0
    }) by (bit_vector);
    let st = decoded_state(w, regs);
    assert(st.alu_entry == 0 && st.enable_in == 0 && st.cs_opcode == (next << 3));
    assert(st.a == 0 && st.b == 0);
    assert(!st.read && !st.write && !st.fetch) by {
        assert((0u8 >> 1) & 1 == 0 && (0u8 >> 2) & 1 == 0 && 0u8 & 1 == 0) by (bit_vector);
    }
    assert(begin_cycle_regs(w, regs) == regs);

    assert(crate::uarch::alu::alu_func_code(0u16) == 0 && !crate::uarch::alu::alu_inc(0u16)
        && crate::uarch::alu::alu_a_input(0u16, 0u32) == 0 && crate::uarch::alu::alu_b_input(
        0u16,
        0u32,
    ) == 0 && crate::uarch::alu::alu_shift_code(0u16) == 0) by {
        assert(0u16 & 0b000000001 == 0 && 0u16 & 0b000001000 == 0 && 0u16 & 0b000000010 == 0
            && 0u16 & 0b000000100 == 0 && 0u16 & 0b001110000 == 0 && (0u16 >> 7) & 0b11 == 0)
            by (bit_vector);
    }
    assert(crate::uarch::end_cycle_core(st) == 0u32 & 0u32);
    assert(0u32 & 0u32 == 0) by (bit_vector);
    let c = crate::uarch::end_cycle_cbus(st);
    assert(c == 0);

    assert(forall|k: u32| #![trigger (0u32 >> k)] (0u32 >> k) & 1 == 0) by (bit_vector);
    assert(forall|j: int|
        0 <= j < 16 ==> !crate::uarch::gp_mask_bit(0u32, j));
    assert(crate::uarch::gp_written(0u32, c, regs.gen) =~= regs.gen);
    assert(!crate::uarch::lv_mask_bit(0u32) && !crate::uarch::pc_mask_bit(0u32)
        && !crate::uarch::mar_mask_bit(0u32) && !crate::uarch::mdr_mask_bit(0u32));
    let regs1 = crate::uarch::regs_after_writes(st, regs);
    assert(regs1 == regs);

    assert(!opcode_jmpc((next << 3) as u16) && !opcode_jamn((next << 3) as u16) && !opcode_jamz(
        (next << 3) as u16,
    ) && opcode_next((next << 3) as u16) == next) by {
        assert(next < 512 ==> {
            let v = (next << 3) as u16;
            &&& (v >> 2) & 1 == 0
            &&& (v >> 1) & 1 == 0
            &&& v & 1 == 0
            &&& (v & 0x0fff) >> 3 == next
        }) by (bit_vector);
    }
    let regs2 = crate::uarch::regs_after_mpc(st, regs1);
    assert(regs2 == regs);
    assert(end_cycle_spec(st, regs, ram).regs == crate::uarch::regs_after_memops(st, regs2, ram));
    assert(crate::uarch::regs_after_memops(st, regs2, ram) == regs);
    assert(crate::uarch::ram_after_memops(st, regs2, ram) == ram);
    assert(end_cycle_spec(st, regs, ram).mpc == next_mpc((next << 3) as u16, true, false, regs.mem.mbr));
}


proof fn lemma_nop_word_not_halt(x: u16)
    ensures
        mi_encode(base_mi(x)) != u64::MAX,
{
    assert(((((((((((((((x as u64) << 3) | (0u64)) << 9) | (0u64)) << 20) | (0u64)) << 3) | (
    0u64)) << 5) | (0x1fu64)) << 5) | (0x1fu64)) << 8) | (0u64) != u64::MAX) by (bit_vector);
}

proof fn lemma_halt_word_consumes_nothing(regs: RegistersView)
    ensures
        begin_cycle_regs(u64::MAX, regs) == regs,
{
    assert(((u64::MAX >> 13) & 0x1f) as u8 == 0x1f) by (bit_vector);
}

/// A run that sees only idle (NOP) words from the current MPC up to a
/// HALT word reaches that HALT with the registers and the RAM exactly
/// as they were, after one flip per word plus the flip that observes
/// HALT.
pub proof fn lemma_nop_run(fw: Seq<u64>, m: MachineView, n: u16, fuel: nat)
    requires
        m.regs.gen.len() == 16,
        n < 256,
        m.mpc <= n,
        forall|i: int| m.mpc <= i < n ==> #[trigger] fw[i] == mi_encode(base_mi((i + 1) as u16)),
        fw[n as int] == u64::MAX,
        m.mpc < n ==> (if m.level == m.t1 {
            m.dp2
        } else {
            m.dp1
        }) == decoded_state(fw[m.mpc as int], m.regs),
        fuel > n - m.mpc,
        m.flips + (n - m.mpc) + 1 <= u32::MAX,
    ensures
        ({
            run_spec(fw, m, fuel) matches Some(mf) && mf.regs == m.regs && mf.ram == m.ram
                && mf.mpc == n && mf.flips == m.flips + (n - m.mpc) + 1
        }),
    decreases n - m.mpc,
{
    if m.mpc == n {
        assert(run_spec(fw, m, fuel) == Some(machine_flipped(m)));
    } else {
        let w = fw[m.mpc as int];
        assert(w == mi_encode(base_mi((m.mpc + 1) as u16)));
        lemma_nop_word_not_halt((m.mpc + 1) as u16);
        lemma_nop_cycle((m.mpc + 1) as u16, m.regs, m.ram);
        let est = if m.level == m.t1 {
            m.dp2
        } else {
            m.dp1
        };
        let e = end_cycle_spec(decoded_state(w, m.regs), m.regs, m.ram);
        assert(e.ok && e.regs == m.regs && e.ram == m.ram && e.mpc == m.mpc + 1);
        let w2 = fw[e.mpc as int];
        if e.mpc < n {
            lemma_nop_cycle((e.mpc + 1) as u16, m.regs, m.ram);
            assert(begin_cycle_regs(w2, e.regs) == m.regs);
        } else {
            lemma_halt_word_consumes_nothing(m.regs);
        }
        let fire2 = m.level == m.t1;
        let m1 = machine_flipped(m);
        let st2 = decoded_state(w2, e.regs);
        let m2 = MachineView {
            dp1: if fire2 {
                st2
            } else {
                m1.dp1
            },
            dp2: if fire2 {
                m1.dp2
            } else {
                st2
            },
            regs: begin_cycle_regs(w2, e.regs),
            ram: e.ram,
            mpc: e.mpc,
            ..m1
        };
        assert(run_spec(fw, m, fuel) == run_spec(fw, m2, (fuel - 1) as nat));
        assert(m2.level == m2.t1 <==> !fire2) by {
            match m.level {
                ClkLevel::Falling => {},
                ClkLevel::Rising => {},
            }
        }
        lemma_nop_run(fw, m2, n, (fuel - 1) as nat);
    }
}

/// The NOP-program law: on a machine at power-on whose store holds
/// idle (NOP) words from slot 0 up to a HALT word at slot `n`, the run
/// reaches HALT with every architectural register still at its initial
/// value — the general registers, LV, PC and the rest all zero, CPP at
/// the last RAM word — the RAM untouched, and exactly `n + 2` clock
/// flips spent (one per word retired, one for the priming flip, one for
/// the level that observes HALT). Composed with [`Computer::exec`]'s
/// contract, whose trace this is, such a run returns `Ok` and leaves
/// exactly this machine state.
pub proof fn lemma_nop_program(c: Computer, n: u16)
    requires
        c.cpu.thr.regs@ == crate::uarch::mem::Registers::initial(),
        c.cpu.thr.dp1.trigger == ClkLevel::Falling,
        c.clock.level_spec() == ClkLevel::Falling,
        c.clock.flips() == 0,
        c.cpu.firmware@.mpc == 0,
        n < 256,
        forall|i: int|
            0 <= i < n ==> #[trigger] c.cpu.firmware@.firmware[i] == mi_encode(
                base_mi((i + 1) as u16),
            ),
        c.cpu.firmware@.firmware[n as int] == u64::MAX,
    ensures
        ({
            run_spec(c.cpu.firmware@.firmware, c.synced_view(), u64::MAX as nat) matches Some(mf)
                && mf.regs == crate::uarch::mem::Registers::initial() && mf.ram == c.mem@
                && mf.mpc == n && mf.flips == n + 2
        }),
{
    let fw = c.cpu.firmware@.firmware;
    let m = c.synced_view();
    if n == 0 {
        lemma_halt_word_consumes_nothing(crate::uarch::mem::Registers::initial());
    } else {
        lemma_nop_cycle(1u16, crate::uarch::mem::Registers::initial(), c.mem@);
        assert(fw[0] == mi_encode(base_mi(1u16)));
    }
    assert(m.regs == crate::uarch::mem::Registers::initial());
    lemma_nop_run(fw, m, n, u64::MAX as nat);
}

} // verus!
