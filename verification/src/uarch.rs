//! The Vondel microarchitecture: two data paths on opposite clock edges
//! share one register file and execute microinstructions from a 512-entry
//! control store until the all-ones HALT word is reached.
//!
//! A 64-bit microinstruction holds, from the most significant end:
//! `NEXT_ADDR` (9 bits), `JAM` (3), `ALU_CTRL` (9), `C_BUS` (20),
//! `MEM` (3), `A_SEL` (5), `B_SEL` (5), `IMM` (8); the two top bits are
//! spare. On its begin-of-cycle a data path decodes the word at the MPC
//! and latches operands; on its end-of-cycle it drives the ALU, writes
//! the C bus back, updates the MPC, and performs memory traffic.

pub mod alu;
pub mod mem;

use crate::uarch::alu::{
    alu_a_input, alu_b_input, alu_core, alu_func_code, alu_inc, alu_shift_code, alu_shifted, Alu,
    AluState,
};
use crate::uarch::mem::{
    mem_consumed, mem_fetched, next_mpc, opcode_jmpc, CtrlStore, MemRegsView, OutOfRange, Ram,
    Registers, RegistersView, CS_ADDRS, RAM_ADDRS,
};
use vstd::prelude::*;

verus! {

/// The IMM field: the low 8 bits of the word.
pub open spec fn mi_imm(w: u64) -> u8 {
    (w & 0xff) as u8
}

/// The B-bus selector: bits 8..=12.
pub open spec fn mi_b_sel(w: u64) -> u8 {
    ((w >> 8) & 0x1f) as u8
}

/// The A-bus selector: bits 13..=17.
pub open spec fn mi_a_sel(w: u64) -> u8 {
    ((w >> 13) & 0x1f) as u8
}

/// The MEM field `[ WRITE | READ | FETCH ]`: bits 18..=20.
pub open spec fn mi_mem(w: u64) -> u8 {
    ((w >> 18) & 0x7) as u8
}

/// The 20-bit C-bus write-enable mask: bits 21..=40.
pub open spec fn mi_cbus(w: u64) -> u32 {
    ((w >> 21) & 0xfffff) as u32
}

/// The 9-bit ALU control word: bits 41..=49.
pub open spec fn mi_alu(w: u64) -> u16 {
    ((w >> 41) & 0x1ff) as u16
}

/// The control-store opcode `[ NEXT_ADDR | JMPC | JAMN | JAMZ ]`: every
/// bit from 50 up (the two spare top bits ride along and are ignored by
/// the MPC update).
pub open spec fn mi_opcode(w: u64) -> u16 {
    (w >> 50) as u16
}

/// How many bytes a read through the given A-bus selector consumes from
/// the fetch queue: 1 for the MBR views, 2 for the MBR2 views.
pub open spec fn a_sel_consumes(sel: u8) -> int {
    if sel == 2 || sel == 3 {
        1
    } else if sel == 4 || sel == 5 {
        2
    } else {
        0
    }
}

/// The value the A bus carries for a selector, before any consumption:
/// `{0: MDR, 1: PC, 2: MBR sign-extended, 3: MBR, 4: MBR2 sign-extended,
/// 5: MBR2, 6: LV, 7: CPP, 8: IMM, 9..=24: the general registers}`;
/// selectors past the register file read zero.
pub open spec fn a_bus_value(sel: u8, imm: u32, regs: RegistersView) -> u32 {
    if sel == 0 {
        regs.mem.mdr
    } else if sel == 1 {
        regs.mem.pc
    } else if sel == 2 {
        if regs.mem.mbr >= 0x80 {
            regs.mem.mbr as u32 | 0xffffff00
        } else {
            regs.mem.mbr as u32
        }
    } else if sel == 3 {
        regs.mem.mbr as u32
    } else if sel == 4 {
        if regs.mem.mbr2 >= 0x8000 {
            regs.mem.mbr2 as u32 | 0xffff0000
        } else {
            regs.mem.mbr2 as u32
        }
    } else if sel == 5 {
        regs.mem.mbr2 as u32
    } else if sel == 6 {
        regs.lv
    } else if sel == 7 {
        regs.cpp
    } else if sel == 8 {
        imm
    } else if 9 <= sel && sel < 25 {
        regs.gen[sel - 9]
    } else {
        0
    }
}

/// The value the B bus carries for a selector:
/// `{0: MDR, 1: LV, 2: CPP, 3: IMM, 4..=19: the general registers}`;
/// selectors past the register file read zero.
pub open spec fn b_bus_value(sel: u8, imm: u32, regs: RegistersView) -> u32 {
    if sel == 0 {
        regs.mem.mdr
    } else if sel == 1 {
        regs.lv
    } else if sel == 2 {
        regs.cpp
    } else if sel == 3 {
        imm
    } else if 4 <= sel && sel < 20 {
        regs.gen[sel - 4]
    } else {
        0
    }
}

/// The microinstruction state a data path latches at begin-of-cycle.
#[derive(Clone, Copy)]
pub struct DPState {
    pub cs_opcode: u16,
    pub alu_entry: u16,
    pub enable_in: u32,
    pub a: u32,
    pub b: u32,
    pub write: bool,
    pub read: bool,
    pub fetch: bool,
}

/// The state decoded from microinstruction `w` with the registers as
/// they stand at begin-of-cycle.
pub open spec fn decoded_state(w: u64, regs: RegistersView) -> DPState {
    DPState {
        cs_opcode: mi_opcode(w),
        alu_entry: mi_alu(w),
        enable_in: mi_cbus(w),
        a: a_bus_value(mi_a_sel(w), mi_imm(w) as u32, regs),
        b: b_bus_value(mi_b_sel(w), mi_imm(w) as u32, regs),
        write: (mi_mem(w) >> 2) & 1 == 1,
        read: (mi_mem(w) >> 1) & 1 == 1,
        fetch: mi_mem(w) & 1 == 1,
    }
}

/// The registers after begin-of-cycle decoded `w`: reading MBR or MBR2
/// through the A bus consumes from the fetch queue and advances PC.
pub open spec fn begin_cycle_regs(w: u64, regs: RegistersView) -> RegistersView {
    RegistersView { mem: mem_consumed(regs.mem, a_sel_consumes(mi_a_sel(w))), ..regs }
}

/// Whether C-bus mask bit for general register `j` (0 = RA .. 15 = A3)
/// is set; the mask's low 16 bits name the registers from A3 up.
pub open spec fn gp_mask_bit(mask: u32, j: int) -> bool {
    (mask >> ((15 - j) as u32)) & 1 == 1
}

/// The LV write-enable bit of the C-bus mask.
pub open spec fn lv_mask_bit(mask: u32) -> bool {
    (mask >> 16) & 1 == 1
}

/// The PC write-enable bit of the C-bus mask.
pub open spec fn pc_mask_bit(mask: u32) -> bool {
    (mask >> 17) & 1 == 1
}

/// The MAR write-enable bit of the C-bus mask.
pub open spec fn mar_mask_bit(mask: u32) -> bool {
    (mask >> 18) & 1 == 1
}

/// The MDR write-enable bit of the C-bus mask.
pub open spec fn mdr_mask_bit(mask: u32) -> bool {
    (mask >> 19) & 1 == 1
}

/// The general registers after an end-of-cycle write of `c` under `mask`.
pub open spec fn gp_written(mask: u32, c: u32, gen: Seq<u32>) -> Seq<u32> {
    Seq::new(16, |j: int| if gp_mask_bit(mask, j) { c } else { gen[j] })
}

/// The ALU's pre-shift result for a latched state; Z and N are taken
/// from this value.
pub open spec fn end_cycle_core(st: DPState) -> u32 {
    alu_core(
        alu_func_code(st.alu_entry),
        alu_a_input(st.alu_entry, st.a),
        alu_b_input(st.alu_entry, st.b),
        alu_inc(st.alu_entry),
    )
}

/// The C-bus value for a latched state: the ALU result after the shifter.
pub open spec fn end_cycle_cbus(st: DPState) -> u32 {
    alu_shifted(alu_shift_code(st.alu_entry), end_cycle_core(st))
}

/// The registers after the C-bus write-back: every enabled general
/// register, LV, PC (which also resets the fetch address), MAR and MDR
/// latch the C-bus value.
pub open spec fn regs_after_writes(st: DPState, regs: RegistersView) -> RegistersView {
    let c = end_cycle_cbus(st);
    let mask = st.enable_in;
    let m1 = if pc_mask_bit(mask) {
        MemRegsView { pc: c, imar: c, ..regs.mem }
    } else {
        regs.mem
    };
    let m2 = if mar_mask_bit(mask) {
        MemRegsView { mar: c, ..m1 }
    } else {
        m1
    };
    let m3 = if mdr_mask_bit(mask) {
        MemRegsView { mdr: c, ..m2 }
    } else {
        m2
    };
    RegistersView {
        mem: m3,
        lv: if lv_mask_bit(mask) {
            c
        } else {
            regs.lv
        },
        cpp: regs.cpp,
        gen: gp_written(mask, c, regs.gen),
    }
}

/// The registers after the MPC update: when JMPC is set the update reads
/// MBR through the consuming path.
pub open spec fn regs_after_mpc(st: DPState, regs: RegistersView) -> RegistersView {
    if opcode_jmpc(st.cs_opcode) {
        RegistersView { mem: mem_consumed(regs.mem, 1), ..regs }
    } else {
        regs
    }
}

/// The MPC after end-of-cycle: the NEXT/JAM rule applied to the flags of
/// this cycle's ALU result and the MBR as it stands after write-back.
pub open spec fn end_cycle_mpc(st: DPState, regs: RegistersView) -> u16 {
    let core = end_cycle_core(st);
    next_mpc(st.cs_opcode, core == 0, core >> 31 == 1, regs_after_writes(st, regs).mem.mbr)
}

/// Whether the end-of-cycle memory phase stays in range: a read or write
/// needs MAR below the RAM bound, a fetch with room in the queue needs
/// the fetch address below it. `regs` is the state after write-back and
/// MPC update.
pub open spec fn end_cycle_ok(st: DPState, regs: RegistersView) -> bool {
    &&& st.read ==> regs.mem.mar < RAM_ADDRS
    &&& st.write ==> regs.mem.mar < RAM_ADDRS
    &&& st.fetch && regs.mem.queue.len() < 4 ==> regs.mem.imar < RAM_ADDRS
}

/// The registers after the memory phase: read loads MDR from RAM, fetch
/// refills the queue when it holds fewer than 4 bytes. `regs` is the
/// state after write-back and MPC update; `ram` the RAM before the phase.
pub open spec fn regs_after_memops(st: DPState, regs: RegistersView, ram: Seq<u32>) -> RegistersView {
    let m5 = if st.read {
        MemRegsView { mdr: ram[regs.mem.mar as int], ..regs.mem }
    } else {
        regs.mem
    };
    let ram2 = if st.write {
        ram.update(m5.mar as int, m5.mdr)
    } else {
        ram
    };
    let m6 = if st.fetch && m5.queue.len() < 4 {
        mem_fetched(m5, ram2[m5.imar as int])
    } else {
        m5
    };
    RegistersView { mem: m6, ..regs }
}

/// The RAM after the memory phase: a write stores MDR (as it stands
/// after a read in the same cycle) at MAR.
pub open spec fn ram_after_memops(st: DPState, regs: RegistersView, ram: Seq<u32>) -> Seq<u32> {
    let m5 = if st.read {
        MemRegsView { mdr: ram[regs.mem.mar as int], ..regs.mem }
    } else {
        regs.mem
    };
    if st.write {
        ram.update(m5.mar as int, m5.mdr)
    } else {
        ram
    }
}

/// One end-of-cycle, assembled: `ok` says whether the memory phase
/// stayed in range; `regs`, `ram` and `mpc` are the outcome when it did;
/// `z` and `n` the flags the ALU latched.
pub struct EndCycle {
    pub ok: bool,
    pub regs: RegistersView,
    pub ram: Seq<u32>,
    pub mpc: u16,
    pub z: bool,
    pub n: bool,
}

/// The full end-of-cycle transition for a latched state.
pub open spec fn end_cycle_spec(st: DPState, regs: RegistersView, ram: Seq<u32>) -> EndCycle {
    let core = end_cycle_core(st);
    let regs2 = regs_after_mpc(st, regs_after_writes(st, regs));
    EndCycle {
        ok: end_cycle_ok(st, regs2),
        regs: regs_after_memops(st, regs2, ram),
        ram: ram_after_memops(st, regs2, ram),
        mpc: end_cycle_mpc(st, regs),
        z: core == 0,
        n: core >> 31 == 1,
    }
}

/// One of the two phase-halves of the engine: an ALU of its own, the
/// latched microinstruction state, and the clock level that triggers its
/// begin-of-cycle.
pub struct DataPath {
    pub alu: Alu,
    pub state: DPState,
    pub trigger: ClkLevel,
}

impl DataPath {
    /// The latched ALU control word always fits its 9 bits.
    pub open spec fn wf(&self) -> bool {
        self.state.alu_entry < 512
    }

    pub open spec fn zero_state() -> DPState {
        DPState {
            cs_opcode: 0,
            alu_entry: 0,
            enable_in: 0,
            a: 0,
            b: 0,
            write: false,
            read: false,
            fetch: false,
        }
    }

    pub fn new(trigger: ClkLevel) -> (r: DataPath)
        ensures
            r.wf(),
            r.state == DataPath::zero_state(),
            r.trigger == trigger,
            r.alu@ == (AluState { func: 0, inc: false, a: 0, b: 0, shift: 0, z: false, n: false }),
    {
        DataPath {
            alu: Alu::new(),
            state: DPState {
                cs_opcode: 0,
                alu_entry: 0,
                enable_in: 0,
                a: 0,
                b: 0,
                write: false,
                read: false,
                fetch: false,
            },
            trigger,
        }
    }

    /// A fresh data path bound to the opposite clock level.
    pub fn sibling(&self) -> (r: DataPath)
        ensures
            r.wf(),
            r.state == DataPath::zero_state(),
            r.trigger == clk_inv(self.trigger),
            r.alu@ == (AluState { func: 0, inc: false, a: 0, b: 0, shift: 0, z: false, n: false }),
    {
        DataPath {
            alu: Alu::new(),
            state: DPState {
                cs_opcode: 0,
                alu_entry: 0,
                enable_in: 0,
                a: 0,
                b: 0,
                write: false,
                read: false,
                fetch: false,
            },
            trigger: self.trigger.inv(),
        }
    }

    /// Begin-of-cycle: decode the microinstruction at the MPC and latch
    /// the operands; reading MBR or MBR2 through the A bus consumes from
    /// the fetch queue and advances PC.
    pub fn init_cycle(&mut self, regs: &mut Registers, cs: &CtrlStore)
        requires
            old(regs).wf(),
            cs.wf(),
        ensures
            final(regs).wf(),
            final(self).wf(),
            final(self).trigger == old(self).trigger,
            final(self).alu == old(self).alu,
            final(self).state == decoded_state(
                cs@.firmware[cs@.mpc as int],
                old(regs)@,
            ),
            final(regs)@ == begin_cycle_regs(cs@.firmware[cs@.mpc as int], old(regs)@),
    {
        let mi: u64 = cs.get_mi();
        proof {
            assert(mi & 0xff < 256 && (mi >> 8) & 0x1f < 32 && (mi >> 13) & 0x1f < 32 && (mi >> 18)
                & 0x7 < 8 && (mi >> 21) & 0xfffff < 0x100000 && (mi >> 41) & 0x1ff < 512 && (mi
                >> 50) < 0x4000) by (bit_vector);
        }
        let immediate: u32 = (mi & 0xff) as u32;

        let b_code: u8 = ((mi >> 8) & 0x1f) as u8;
        self.state.b = if b_code == 0 {
            regs.mem.mdr()
        } else if b_code == 1 {
            regs.sys.lv
        } else if b_code == 2 {
            regs.sys.cpp
        } else if b_code == 3 {
            immediate
        } else {
            match regs.gen.get((b_code - 4) as usize) {
                Some(v) => v,
                None => 0,
            }
        };

        let a_code: u8 = ((mi >> 13) & 0x1f) as u8;
        self.state.a = if a_code == 0 {
            regs.mem.mdr()
        } else if a_code == 1 {
            regs.mem.pc()
        } else if a_code == 2 {
            let b: u8 = regs.mem.mbr();
            if b >= 0x80 {
                b as u32 | 0xffffff00
            } else {
                b as u32
            }
        } else if a_code == 3 {
            regs.mem.mbr() as u32
        } else if a_code == 4 {
            let h: u16 = regs.mem.mbr2();
            if h >= 0x8000 {
                h as u32 | 0xffff0000
            } else {
                h as u32
            }
        } else if a_code == 5 {
            regs.mem.mbr2() as u32
        } else if a_code == 6 {
            regs.sys.lv
        } else if a_code == 7 {
            regs.sys.cpp
        } else if a_code == 8 {
            immediate
        } else {
            match regs.gen.get((a_code - 9) as usize) {
                Some(v) => v,
                None => 0,
            }
        };

        let mem_code: u8 = ((mi >> 18) & 0x7) as u8;
        self.state.fetch = mem_code & 1 == 1;
        self.state.read = (mem_code >> 1) & 1 == 1;
        self.state.write = (mem_code >> 2) & 1 == 1;

        self.state.enable_in = ((mi >> 21) & 0xfffff) as u32;
        self.state.alu_entry = ((mi >> 41) & 0x1ff) as u16;
        self.state.cs_opcode = (mi >> 50) as u16;
    }

    /// End-of-cycle: drive the ALU with the latched operands, write the
    /// C bus to every enabled register, update the MPC, and perform the
    /// requested memory traffic. Fails when a read, write or fetch would
    /// address a word past the RAM bound.
    pub fn end_cycle(&mut self, regs: &mut Registers, mem: &mut Ram, cs: &mut CtrlStore) -> (r:
        Result<(), OutOfRange>)
        requires
            old(self).wf(),
            old(regs).wf(),
            old(mem).wf(),
            old(cs).wf(),
        ensures
            final(self).wf(),
            final(regs).wf(),
            final(mem).wf(),
            final(cs).wf(),
            final(self).state == old(self).state,
            final(self).trigger == old(self).trigger,
            final(cs)@.firmware == old(cs)@.firmware,
            ({
                let e = end_cycle_spec(old(self).state, old(regs)@, old(mem)@);
                &&& (r is Ok <==> e.ok)
                &&& final(cs)@.mpc == e.mpc
                &&& final(self).alu@.z == e.z
                &&& final(self).alu@.n == e.n
                &&& (r is Ok ==> final(regs)@ == e.regs && final(mem)@ == e.ram)
            }),
    {
        self.alu.entry(self.state.alu_entry, self.state.a, self.state.b);
        let c_bus: u32 = self.alu.op();

        let ghost st = old(self).state;
        let ghost regs1 = regs_after_writes(st, old(regs)@);

        let ghost gen0: Seq<u32> = regs.gen@;
        let ghost mem0 = regs.mem;
        let ghost lv0: u32 = regs.sys.lv;
        let ghost cpp0: u32 = regs.sys.cpp;
        proof {
            let m = st.enable_in;
            assert(m >> 0u32 == m) by (bit_vector);
        }
        let mut en: u32 = self.state.enable_in;
        let mut i: usize = 0;
        while i < 16
            invariant
                regs.gen.wf(),
                i <= 16,
                en == st.enable_in >> (i as u32),
                c_bus == end_cycle_cbus(st),
                st == old(self).state,
                gen0.len() == 16,
                forall|j: int|
                    0 <= j < 16 ==> #[trigger] regs.gen@[j] == if j > 15 - i && gp_mask_bit(
                        st.enable_in,
                        j,
                    ) {
                        c_bus
                    } else {
                        gen0[j]
                    },
                regs.mem == mem0,
                regs.sys.lv == lv0,
                regs.sys.cpp == cpp0,
            decreases 16 - i,
        {
            let ghost prev: Seq<u32> = regs.gen@;
            let enb_in: bool = (en & 1) == 1;
            if enb_in {
                regs.gen.set(15 - i, c_bus);
            }
            proof {
                let ii = i as u32;
                let m = st.enable_in;
                assert(ii < 16 ==> (m >> ii) >> 1u32 == m >> (ii + 1) as u32) by (bit_vector);
                assert(((m >> ii) & 1 == 1) == gp_mask_bit(m, 15 - i));
                assert forall|j: int| 0 <= j < 16 implies regs.gen@[j] == (if j > 15 - (i + 1)
                    && gp_mask_bit(m, j) {
                    c_bus
                } else {
                    gen0[j]
                }) by {
                    if j == 15 - i {
                        if enb_in {
                            assert(regs.gen@[j] == c_bus);
                        } else {
                            assert(regs.gen@[j] == prev[j]);
                        }
                    } else {
                        assert(regs.gen@[j] == prev[j]);
                    }
                }
            }
            en = en >> 1;
            i = i + 1;
        }
        proof {
            assert(gen0 == old(regs).gen@);
            assert(regs.gen@ =~= gp_written(st.enable_in, end_cycle_cbus(st), old(regs).gen@));
        }

        let enb_lv_in: bool = (en & 1) == 1;
        if enb_lv_in {
            regs.sys.lv = c_bus;
        }
        en = en >> 1;

        let enb_pc_in: bool = (en & 1) == 1;
        if enb_pc_in {
            regs.mem.update_pc(c_bus);
        }
        en = en >> 1;

        let enb_mar_in: bool = (en & 1) == 1;
        if enb_mar_in {
            regs.mem.update_mar(c_bus);
        }
        en = en >> 1;

        let enb_mdr_in: bool = (en & 1) == 1;
        if enb_mdr_in {
            regs.mem.update_mdr(c_bus);
        }

        proof {
            let m = st.enable_in;
            assert(((m >> 16u32) & 1 == 1) == lv_mask_bit(m));
            assert(((m >> 16u32) >> 1u32) == m >> 17u32 && ((m >> 17u32) >> 1u32) == m >> 18u32 && (
            (m >> 18u32) >> 1u32) == m >> 19u32) by (bit_vector);
            assert(regs@ =~= regs1);
            assert(regs@.mem == regs1.mem);
        }

        cs.update_mpc(self.state.cs_opcode, self.alu.z(), self.alu.n(), &mut regs.mem);

        proof {
            assert(regs@ =~= regs_after_mpc(st, regs1));
        }
        let ghost regs2 = regs_after_mpc(st, regs1);

        if self.state.read {
            match regs.mem.read(mem) {
                Ok(()) => {},
                Err(e) => {
                    return Err(e);
                },
            }
        }
        if self.state.write {
            match regs.mem.write(mem) {
                Ok(()) => {},
                Err(e) => {
                    return Err(e);
                },
            }
        }
        if self.state.fetch {
            match regs.mem.fetch(mem) {
                Ok(()) => {},
                Err(e) => {
                    return Err(e);
                },
            }
        }
        proof {
            assert(regs@ =~= regs_after_memops(st, regs2, old(mem)@));
        }
        Ok(())
    }

    /// React to one clock edge: begin a cycle when the level matches
    /// this path's trigger, end the running one otherwise.
    pub fn recv_signal(&mut self, ck: &ClkLevel, regs: &mut Registers, mem: &mut Ram, cs: &mut CtrlStore) -> (r: Result<(), OutOfRange>)
        requires
            old(self).wf(),
            old(regs).wf(),
            old(mem).wf(),
            old(cs).wf(),
        ensures
            final(self).wf(),
            final(regs).wf(),
            final(mem).wf(),
            final(cs).wf(),
            final(self).trigger == old(self).trigger,
            final(cs)@.firmware == old(cs)@.firmware,
            *ck == old(self).trigger ==> ({
                let w = old(cs)@.firmware[old(cs)@.mpc as int];
                &&& r is Ok
                &&& final(self).state == decoded_state(w, old(regs)@)
                &&& final(regs)@ == begin_cycle_regs(w, old(regs)@)
                &&& *final(mem) == *old(mem)
                &&& final(cs)@.mpc == old(cs)@.mpc
            }),
            *ck != old(self).trigger ==> ({
                let e = end_cycle_spec(old(self).state, old(regs)@, old(mem)@);
                &&& (r is Ok <==> e.ok)
                &&& final(cs)@.mpc == e.mpc
                &&& final(self).state == old(self).state
                &&& (r is Ok ==> final(regs)@ == e.regs && final(mem)@ == e.ram)
            }),
    {
        if *ck == self.trigger {
            self.init_cycle(regs, cs);
            Ok(())
        } else {
            self.end_cycle(regs, mem, cs)
        }
    }
}

/// The two data paths on opposite triggers, sharing one register file.
pub struct Thread {
    pub dp1: DataPath,
    pub dp2: DataPath,
    pub regs: Registers,
}

impl Thread {
    pub open spec fn wf(&self) -> bool {
        &&& self.dp1.wf()
        &&& self.dp2.wf()
        &&& self.regs.wf()
    }

    pub fn new() -> (r: Thread)
        ensures
            r.wf(),
            r.dp1.trigger == ClkLevel::Falling,
            r.dp2.trigger == ClkLevel::Rising,
            r.dp1.state == DataPath::zero_state(),
            r.dp2.state == DataPath::zero_state(),
            r.regs@ == Registers::initial(),
    {
        let dp1 = DataPath::new(ClkLevel::Falling);
        let dp2 = dp1.sibling();
        Thread { dp1, dp2, regs: Registers::new() }
    }

    /// The one-time begin-of-cycle of data path 1 that primes the engine.
    pub fn sync(&mut self, cs: &CtrlStore)
        requires
            old(self).wf(),
            cs.wf(),
        ensures
            final(self).wf(),
            final(self).dp1.trigger == old(self).dp1.trigger,
            final(self).dp2 == old(self).dp2,
            final(self).dp1.state == decoded_state(cs@.firmware[cs@.mpc as int], old(self).regs@),
            final(self).regs@ == begin_cycle_regs(cs@.firmware[cs@.mpc as int], old(self).regs@),
    {
        self.dp1.init_cycle(&mut self.regs, cs);
    }

    /// One clock edge: the data path whose trigger matches ends its
    /// cycle, then the other begins its own from the updated MPC.
    pub fn step(&mut self, trigger: &ClkLevel, mem: &mut Ram, cs: &mut CtrlStore) -> (r: Result<
        (),
        OutOfRange,
    >)
        requires
            old(self).wf(),
            old(mem).wf(),
            old(cs).wf(),
        ensures
            final(self).wf(),
            final(mem).wf(),
            final(cs).wf(),
            final(self).dp1.trigger == old(self).dp1.trigger,
            final(self).dp2.trigger == old(self).dp2.trigger,
            final(cs)@.firmware == old(cs)@.firmware,
            ({
                let fire2 = *trigger == old(self).dp1.trigger;
                let est = if fire2 {
                    old(self).dp2.state
                } else {
                    old(self).dp1.state
                };
                let e = end_cycle_spec(est, old(self).regs@, old(mem)@);
                &&& (r is Ok <==> e.ok)
                &&& final(cs)@.mpc == e.mpc
                &&& (r is Ok ==> {
                    let w = old(cs)@.firmware[e.mpc as int];
                    &&& final(mem)@ == e.ram
                    &&& final(self).regs@ == begin_cycle_regs(w, e.regs)
                    &&& (fire2 ==> final(self).dp1.state == decoded_state(w, e.regs)
                        && final(self).dp2.state == old(self).dp2.state)
                    &&& (!fire2 ==> final(self).dp2.state == decoded_state(w, e.regs)
                        && final(self).dp1.state == old(self).dp1.state)
                })
            }),
    {
        if *trigger == self.dp1.trigger {
            match self.dp2.end_cycle(&mut self.regs, mem, cs) {
                Ok(()) => {},
                Err(e) => {
                    return Err(e);
                },
            }
            self.dp1.init_cycle(&mut self.regs, cs);
            Ok(())
        } else {
            match self.dp1.end_cycle(&mut self.regs, mem, cs) {
                Ok(()) => {},
                Err(e) => {
                    return Err(e);
                },
            }
            self.dp2.init_cycle(&mut self.regs, cs);
            Ok(())
        }
    }

    pub fn regs(&self) -> (r: &Registers)
        ensures
            *r == self.regs,
    {
        &self.regs
    }
}

/// The machine in flight, as the run loop's trace sees it: both latched
/// data-path states, data path 1's trigger, the register file, the RAM,
/// the MPC, and the clock.
pub struct MachineView {
    pub dp1: DPState,
    pub dp2: DPState,
    pub t1: ClkLevel,
    pub regs: RegistersView,
    pub ram: Seq<u32>,
    pub mpc: u16,
    pub level: ClkLevel,
    pub flips: u32,
}

/// The machine after one clock flip.
pub open spec fn machine_flipped(m: MachineView) -> MachineView {
    MachineView {
        level: clk_inv(m.level),
        flips: vstd::wrapping::u32_specs::wrapping_add(m.flips, 1),
        ..m
    }
}

/// The run loop's trace: each handed-out level costs one flip; on the
/// HALT word the loop stops there, otherwise the data path whose
/// trigger matches the level ends its cycle and the other begins one
/// from the updated MPC. `None` when a memory operation leaves the RAM
/// bound or the step budget runs out before HALT.
pub open spec fn run_spec(fw: Seq<u64>, m: MachineView, fuel: nat) -> Option<MachineView>
    decreases fuel,
{
    if fuel == 0 {
        None
    } else {
        let m1 = machine_flipped(m);
        if fw[m.mpc as int] == u64::MAX {
            Some(m1)
        } else {
            let fire2 = m.level == m.t1;
            let est = if fire2 {
                m.dp2
            } else {
                m.dp1
            };
            let e = end_cycle_spec(est, m.regs, m.ram);
            if e.ok {
                let w = fw[e.mpc as int];
                let st2 = decoded_state(w, e.regs);
                let m2 = MachineView {
                    dp1: if fire2 {
                        st2
                    } else {
                        m1.dp1
                    },
                    dp2: if fire2 {
                        m1.dp2
                    } else {
                        st2
                    },
                    regs: begin_cycle_regs(w, e.regs),
                    ram: e.ram,
                    mpc: e.mpc,
                    ..m1
                };
                run_spec(fw, m2, (fuel - 1) as nat)
            } else {
                None
            }
        }
    }
}

/// The machine view of a CPU, its RAM and its clock.
pub open spec fn run_view(cpu: Cpu, mem: Ram, clock: Clock) -> MachineView {
    MachineView {
        dp1: cpu.thr.dp1.state,
        dp2: cpu.thr.dp2.state,
        t1: cpu.thr.dp1.trigger,
        regs: cpu.thr.regs@,
        ram: mem@,
        mpc: cpu.firmware@.mpc,
        level: clock.level_spec(),
        flips: clock.flips(),
    }
}

/// The CPU: one thread of two data paths plus the control store.
pub struct Cpu {
    pub thr: Thread,
    pub firmware: CtrlStore,
}

impl Cpu {
    pub open spec fn wf(&self) -> bool {
        &&& self.thr.wf()
        &&& self.firmware.wf()
    }

    pub fn new(firmware: CtrlStore) -> (r: Cpu)
        requires
            firmware.wf(),
        ensures
            r.wf(),
            r.firmware == firmware,
            r.thr.regs@ == Registers::initial(),
            r.thr.dp1.trigger == ClkLevel::Falling,
            r.thr.dp1.state == DataPath::zero_state(),
            r.thr.dp2.state == DataPath::zero_state(),
    {
        Cpu { thr: Thread::new(), firmware }
    }

    /// Prime data path 1 with the microinstruction at the initial MPC.
    pub fn thr_sync(&mut self)
        requires
            old(self).wf(),
        ensures
            final(self).wf(),
            final(self).firmware == old(self).firmware,
            final(self).thr.dp1.trigger == old(self).thr.dp1.trigger,
            final(self).thr.dp2 == old(self).thr.dp2,
            final(self).thr.dp1.state == decoded_state(
                old(self).firmware@.firmware[old(self).firmware@.mpc as int],
                old(self).thr.regs@,
            ),
            final(self).thr.regs@ == begin_cycle_regs(
                old(self).firmware@.firmware[old(self).firmware@.mpc as int],
                old(self).thr.regs@,
            ),
    {
        self.thr.sync(&self.firmware);
    }

    /// The run loop: step the thread once per clock level until the
    /// current microinstruction is HALT, flipping the clock once per
    /// level handed out (including the one that observes HALT). The run
    /// succeeds exactly when the trace of those steps reaches the HALT
    /// word with every memory operation in range, within a step budget
    /// of 2^64 - 1 — unreachable in practice, but keeping the loop
    /// provably finite; a program still running then stalls the machine.
    #[verifier::loop_isolation(false)]
    pub fn run(&mut self, mem: &mut Ram, clock: &mut Clock) -> (r: Result<(), ExecFault>)
        requires
            old(self).wf(),
            old(mem).wf(),
        ensures
            final(self).wf(),
            final(mem).wf(),
            final(self).firmware@.firmware == old(self).firmware@.firmware,
            r is Ok ==> final(self).firmware@.firmware[final(self).firmware@.mpc as int]
                == CtrlStore::HALT,
            ({
                let res = run_spec(
                    old(self).firmware@.firmware,
                    run_view(*old(self), *old(mem), *old(clock)),
                    u64::MAX as nat,
                );
                &&& (r is Ok <==> res is Some)
                &&& (r is Ok ==> ({
                    res matches Some(mf) && run_view(*final(self), *final(mem), *final(clock))
                        == mf
                }))
            }),
    {
        let ghost fw0: Seq<u64> = self.firmware@.firmware;
        let ghost m0 = run_view(*self, *mem, *clock);
        let mut steps_left: u64 = u64::MAX;
        while steps_left > 0
            invariant
                self.wf(),
                mem.wf(),
                self.firmware@.firmware == old(self).firmware@.firmware,
                run_spec(fw0, m0, u64::MAX as nat) == run_spec(
                    fw0,
                    run_view(*self, *mem, *clock),
                    steps_left as nat,
                ),
            decreases steps_left,
        {
            let ghost mc = run_view(*self, *mem, *clock);
            let mi: u64 = self.firmware.get_mi();
            let lv: ClkLevel = clock.level();
            clock.alt();
            if mi == u64::MAX {
                proof {
                    assert(run_view(*self, *mem, *clock) == machine_flipped(mc));
                }
                return Ok(());
            }
            match self.thr.step(&lv, mem, &mut self.firmware) {
                Ok(()) => {},
                Err(_) => {
                    return Err(ExecFault::OutOfRange);
                },
            }
            proof {
                assert(run_spec(fw0, mc, steps_left as nat) == run_spec(
                    fw0,
                    run_view(*self, *mem, *clock),
                    (steps_left - 1) as nat,
                ));
            }
            steps_left = steps_left - 1;
        }
        Err(ExecFault::DidNotHalt)
    }
}

/// Why a run stopped without reaching HALT: a memory operation left the
/// RAM bound, or the step budget ran out before the program halted.
#[derive(Debug, PartialEq, Eq, Structural, Clone, Copy)]
pub enum ExecFault {
    OutOfRange,
    DidNotHalt,
}

/// The clock: a level that alternates and a count of the flips so far.
pub struct Clock {
    lv: ClkLevel,
    count: u32,
}

impl Clock {
    pub closed spec fn level_spec(&self) -> ClkLevel {
        self.lv
    }

    pub closed spec fn flips(&self) -> u32 {
        self.count
    }

    pub fn new() -> (r: Clock)
        ensures
            r.level_spec() == ClkLevel::Falling,
            r.flips() == 0,
    {
        Clock { lv: ClkLevel::Falling, count: 0 }
    }

    pub fn level(&self) -> (r: ClkLevel)
        ensures
            r == self.level_spec(),
    {
        self.lv
    }

    /// One flip: the level inverts and the count advances (wrapping).
    pub fn alt(&mut self)
        ensures
            final(self).level_spec() == clk_inv(old(self).level_spec()),
            final(self).flips() == vstd::wrapping::u32_specs::wrapping_add(old(self).flips(), 1),
    {
        self.count = self.count.wrapping_add(1);
        self.lv = self.lv.inv();
    }
}

/// Architectural cycles for a number of clock flips: two flips make one
/// cycle, an odd flip rounds up.
pub open spec fn cycles_of_flips(flips: u32) -> u32 {
    (flips / 2 + flips % 2) as u32
}

/// Two flips make exactly one architectural cycle: on a run whose flip
/// count is even, the cycle count is precisely half of it.
pub proof fn lemma_cycles_even_flips(flips: u32)
    requires
        flips % 2 == 0,
    ensures
        cycles_of_flips(flips) == flips / 2,
{
}

/// The whole machine: RAM, CPU, and the clock.
pub struct Computer {
    pub mem: Ram,
    pub cpu: Cpu,
    pub clock: Clock,
}

impl Computer {
    pub open spec fn wf(&self) -> bool {
        &&& self.mem.wf()
        &&& self.cpu.wf()
    }

    pub fn new(mem: Ram, firmware: CtrlStore) -> (r: Computer)
        requires
            mem.wf(),
            firmware.wf(),
        ensures
            r.wf(),
            r.mem == mem,
            r.cpu.firmware == firmware,
            r.cpu.thr.regs@ == Registers::initial(),
            r.clock.flips() == 0,
            r.clock.level_spec() == ClkLevel::Falling,
    {
        Computer { mem, cpu: Cpu::new(firmware), clock: Clock::new() }
    }

    /// The machine as it stands when the run loop takes over: data path
    /// 1 has latched the word at the initial MPC (which also performs
    /// any consuming bus read of that word), and the clock has made its
    /// first flip.
    pub open spec fn synced_view(&self) -> MachineView {
        let w0 = self.cpu.firmware@.firmware[self.cpu.firmware@.mpc as int];
        MachineView {
            dp1: decoded_state(w0, self.cpu.thr.regs@),
            dp2: self.cpu.thr.dp2.state,
            t1: self.cpu.thr.dp1.trigger,
            regs: begin_cycle_regs(w0, self.cpu.thr.regs@),
            ram: self.mem@,
            mpc: self.cpu.firmware@.mpc,
            level: clk_inv(self.clock.level_spec()),
            flips: vstd::wrapping::u32_specs::wrapping_add(self.clock.flips(), 1),
        }
    }

    /// Run the machine: prime data path 1, start the clock, and step
    /// until the current microinstruction is HALT. The run succeeds
    /// exactly when the trace from the primed machine reaches the HALT
    /// word with every memory operation in range, and then the final
    /// registers, RAM, MPC and clock are that trace's outcome. Fails
    /// when a memory operation leaves the RAM bound or the step budget
    /// runs out.
    pub fn exec(&mut self) -> (r: Result<(), ExecFault>)
        requires
            old(self).wf(),
        ensures
            final(self).wf(),
            final(self).cpu.firmware@.firmware == old(self).cpu.firmware@.firmware,
            r is Ok ==> final(self).cpu.firmware@.firmware[final(self).cpu.firmware@.mpc as int]
                == CtrlStore::HALT,
            ({
                let res = run_spec(
                    old(self).cpu.firmware@.firmware,
                    old(self).synced_view(),
                    u64::MAX as nat,
                );
                &&& (r is Ok <==> res is Some)
                &&& (r is Ok ==> ({
                    res matches Some(mf) && run_view(
                        final(self).cpu,
                        final(self).mem,
                        final(self).clock,
                    ) == mf
                }))
            }),
    {
        self.cpu.thr_sync();
        self.clock.alt();
        proof {
            assert(run_view(self.cpu, self.mem, self.clock) == old(self).synced_view());
        }
        self.cpu.run(&mut self.mem, &mut self.clock)
    }

    /// The architectural-cycle count: half the clock flips, rounded up.
    pub fn cycles(&self) -> (r: u32)
        ensures
            r == cycles_of_flips(self.clock.flips()),
    {
        let c: u32 = self.clock.count;
        c / 2 + c % 2
    }

    pub fn regs(&self) -> (r: &Registers)
        ensures
            *r == self.cpu.thr.regs,
    {
        self.cpu.thr.regs()
    }

    /// Mutable access to the register file, for presetting state before
    /// a run.
    pub fn regs_mut(&mut self) -> (r: &mut Registers)
        ensures
            *r == old(self).cpu.thr.regs,
            final(self).cpu.thr.regs == *final(r),
            final(self).cpu.thr.dp1 == old(self).cpu.thr.dp1,
            final(self).cpu.thr.dp2 == old(self).cpu.thr.dp2,
            final(self).cpu.firmware == old(self).cpu.firmware,
            final(self).mem == old(self).mem,
            final(self).clock == old(self).clock,
    {
        &mut self.cpu.thr.regs
    }

    pub fn ram(&self) -> (r: &Ram)
        ensures
            *r == self.mem,
    {
        &self.mem
    }
}

/// How many of the low `k` general-register write-enable bits of a
/// C-bus mask are set.
pub open spec fn gp_popcount(mask: u32, k: nat) -> nat
    decreases k,
{
    if k == 0 {
        0
    } else {
        gp_popcount(mask, (k - 1) as nat) + if gp_mask_bit(mask, k - 1) {
            1nat
        } else {
            0nat
        }
    }
}

/// The set of general registers a C-bus mask drives.
pub open spec fn gp_driven(mask: u32) -> Set<int> {
    Set::new(|j: int| 0 <= j < 16 && gp_mask_bit(mask, j))
}

proof fn lemma_gp_drive_count_aux(mask: u32, k: nat)
    requires
        k <= 16,
    ensures
        Set::new(|j: int| 0 <= j < k && gp_mask_bit(mask, j)).finite(),
        Set::new(|j: int| 0 <= j < k && gp_mask_bit(mask, j)).len() == gp_popcount(mask, k),
    decreases k,
{
    let sk = Set::new(|j: int| 0 <= j < k && gp_mask_bit(mask, j));
    if k == 0 {
        assert(sk =~= Set::<int>::empty());
    } else {
        let prev = Set::new(|j: int| 0 <= j < k - 1 && gp_mask_bit(mask, j));
        lemma_gp_drive_count_aux(mask, (k - 1) as nat);
        if gp_mask_bit(mask, k - 1) {
            assert(sk =~= prev.insert(k - 1));
        } else {
            assert(sk =~= prev);
        }
    }
}

/// For every general-register write mask, the end-of-cycle write-back
/// drives exactly as many general registers as the mask has bits set:
/// the driven set's size is the mask's popcount over the sixteen
/// general-register bits, and a register is driven exactly when its bit
/// is set.
pub proof fn lemma_gp_drive_count(mask: u32, c: u32, gen: Seq<u32>)
    requires
        gen.len() == 16,
    ensures
        gp_driven(mask).finite(),
        gp_driven(mask).len() == gp_popcount(mask, 16),
        forall|j: int|
            0 <= j < 16 ==> gp_written(mask, c, gen)[j] == if gp_mask_bit(mask, j) {
                c
            } else {
                gen[j]
            },
{
    lemma_gp_drive_count_aux(mask, 16);
    assert(gp_driven(mask) =~= Set::new(|j: int| 0 <= j < 16nat && gp_mask_bit(mask, j)));
}

/// One level of the two-phase clock.
#[derive(Debug, PartialEq, Eq, Structural, Clone, Copy)]
pub enum ClkLevel {
    Falling,
    Rising,
}

/// The opposite clock level.
pub open spec fn clk_inv(c: ClkLevel) -> ClkLevel {
    match c {
        ClkLevel::Falling => ClkLevel::Rising,
        ClkLevel::Rising => ClkLevel::Falling,
    }
}

impl ClkLevel {
    pub fn inv(&self) -> (r: ClkLevel)
        ensures
            r == clk_inv(*self),
    {
        match self {
            ClkLevel::Falling => ClkLevel::Rising,
            ClkLevel::Rising => ClkLevel::Falling,
        }
    }
}

impl Default for ClkLevel {
    fn default() -> (r: ClkLevel)
        ensures
            r == ClkLevel::Falling,
    {
        ClkLevel::Falling
    }
}

} // verus!
