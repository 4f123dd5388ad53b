//! The stores and registers of the machine: word-addressed RAM, the
//! control store with its micro-program counter, and the register file —
//! memory registers with the instruction-fetch unit, system registers,
//! and the sixteen general-purpose registers.

use vstd::pervasive::VecAdditionalExecFns;
use vstd::prelude::*;

verus! {

/// Words in RAM: a 20-bit address space of 32-bit cells.
pub const RAM_ADDRS: usize = 0x100000;

/// Slots in the control store: a 9-bit address space of 64-bit words.
pub const CS_ADDRS: usize = 512;

/// Word-addressable store of 32-bit cells.
pub struct Ram {
    data: Vec<u32>,
}

impl View for Ram {
    type V = Seq<u32>;

    closed spec fn view(&self) -> Seq<u32> {
        self.data@
    }
}

impl Ram {
    /// A RAM of `RAM_ADDRS` zeroed words.
    pub fn new() -> (r: Ram)
        ensures
            r@ == Seq::new(RAM_ADDRS as nat, |i: int| 0u32),
    {
        let data: Vec<u32> = vec![0u32; RAM_ADDRS];
        proof {
            assert(data@ =~= Seq::new(RAM_ADDRS as nat, |i: int| 0u32));
        }
        Ram { data }
    }

    /// Every RAM keeps exactly `RAM_ADDRS` words.
    pub open spec fn wf(&self) -> bool {
        self@.len() == RAM_ADDRS
    }

    /// The `n`th word of the memory.
    pub fn get(&self, n: u32) -> (r: u32)
        requires
            self.wf(),
            n < RAM_ADDRS,
        ensures
            r == self@[n as int],
    {
        self.data[n as usize]
    }

    /// Set the `n`th word of the memory to `v`.
    pub fn set(&mut self, n: u32, v: u32)
        requires
            old(self).wf(),
            n < RAM_ADDRS,
        ensures
            final(self)@ == old(self)@.update(n as int, v),
    {
        self.data.set(n as usize, v);
    }

    /// Load the words of `v` starting at the `n`th memory word.
    pub fn load(&mut self, n: u32, v: Vec<u32>)
        requires
            old(self).wf(),
            n + v@.len() <= RAM_ADDRS,
        ensures
            final(self).wf(),
            final(self)@.len() == old(self)@.len(),
            forall|j: int|
                0 <= j < RAM_ADDRS ==> final(self)@[j] == if n <= j < n + v@.len() {
                    v@[j - n]
                } else {
                    old(self)@[j]
                },
    {
        let ghost orig: Seq<u32> = self@;
        let mut i: usize = 0;
        while i < v.len()
            invariant
                self.wf(),
                i <= v@.len(),
                n + v@.len() <= RAM_ADDRS,
                self@.len() == orig.len(),
                orig == old(self)@,
                forall|j: int|
                    0 <= j < RAM_ADDRS ==> self@[j] == if n <= j < n + i {
                        v@[j - n]
                    } else {
                        orig[j]
                    },
            decreases v@.len() - i,
        {
            let word: u32 = v[i];
            let addr: u32 = n + (i as u32);
            self.set(addr, word);
            i = i + 1;
        }
    }
}

/// Raised when a memory operation addresses a word past the RAM bound.
#[derive(Debug, PartialEq, Eq, Structural, Clone, Copy)]
pub struct OutOfRange;

/// The four bytes of a 32-bit word in little-endian order.
pub open spec fn word_le_bytes(w: u32) -> Seq<u8> {
    seq![(w & 0xff) as u8, ((w >> 8) & 0xff) as u8, ((w >> 16) & 0xff) as u8, (
    (w >> 24) & 0xff) as u8]
}

/// MBR as published from the fetch queue: its front byte, zero if empty.
pub open spec fn queue_mbr(q: Seq<u8>) -> u8 {
    if q.len() > 0 {
        q[0]
    } else {
        0
    }
}

/// MBR2 as published from the fetch queue: its first two bytes assembled
/// little-endian, with absent bytes read as zero.
pub open spec fn queue_mbr2(q: Seq<u8>) -> u16 {
    let lo = queue_mbr(q) as u16;
    let hi = if q.len() > 1 {
        q[1] as u16
    } else {
        0
    };
    hi << 8 | lo
}

/// The queue after `k` bytes have been consumed; consuming from a queue
/// shorter than `k` drains it.
pub open spec fn queue_consumed(q: Seq<u8>, k: int) -> Seq<u8> {
    if q.len() >= k {
        q.skip(k)
    } else {
        Seq::empty()
    }
}

/// The memory registers after `k` bytes have been consumed from the
/// fetch queue: PC advances by `k` (wrapping) and MBR/MBR2 republish the
/// shortened queue.
pub open spec fn mem_consumed(m: MemRegsView, k: int) -> MemRegsView {
    if k <= 0 {
        m
    } else {
        MemRegsView {
            pc: vstd::wrapping::u32_specs::wrapping_add(m.pc, k as u32),
            queue: queue_consumed(m.queue, k),
            mbr: queue_mbr(queue_consumed(m.queue, k)),
            mbr2: queue_mbr2(queue_consumed(m.queue, k)),
            ..m
        }
    }
}

/// The memory registers after one fetch step that found room in the
/// queue: the word at the internal address enters the queue byte by byte,
/// little-endian, and the internal address advances.
pub open spec fn mem_fetched(m: MemRegsView, word: u32) -> MemRegsView {
    MemRegsView {
        queue: m.queue + word_le_bytes(word),
        imar: (m.imar + 1) as u32,
        mbr: queue_mbr(m.queue + word_le_bytes(word)),
        mbr2: queue_mbr2(m.queue + word_le_bytes(word)),
        ..m
    }
}

/// The memory registers as specifications see them: MAR, MDR, PC, the
/// published MBR and MBR2, and the fetch unit's byte queue and internal
/// address.
pub struct MemRegsView {
    pub mar: u32,
    pub mdr: u32,
    pub pc: u32,
    pub mbr: u8,
    pub mbr2: u16,
    pub queue: Seq<u8>,
    pub imar: u32,
}

/// The memory registers: MAR, MDR, PC, and the instruction-fetch unit
/// whose byte queue feeds MBR and MBR2.
pub struct MemRegs {
    mar: u32,
    mdr: u32,
    pc: u32,
    mbr: u8,
    mbr2: u16,
    queue: Vec<u8>,
    imar: u32,
}

impl View for MemRegs {
    type V = MemRegsView;

    closed spec fn view(&self) -> MemRegsView {
        MemRegsView {
            mar: self.mar,
            mdr: self.mdr,
            pc: self.pc,
            mbr: self.mbr,
            mbr2: self.mbr2,
            queue: self.queue@,
            imar: self.imar,
        }
    }
}

impl MemRegs {
    /// The queue holds at most 8 bytes, and MBR/MBR2 always republish its
    /// front bytes.
    pub open spec fn wf(&self) -> bool {
        &&& self@.queue.len() <= 8
        &&& self@.mbr == queue_mbr(self@.queue)
        &&& self@.mbr2 == queue_mbr2(self@.queue)
    }

    pub fn new() -> (r: MemRegs)
        ensures
            r@ == (MemRegsView {
                mar: 0,
                mdr: 0,
                pc: 0,
                mbr: 0,
                mbr2: 0,
                queue: Seq::empty(),
                imar: 0,
            }),
            r.wf(),
    {
        proof {
            assert((0u16 << 8 | 0u16) == 0u16) by (bit_vector);
        }
        MemRegs { mar: 0, mdr: 0, pc: 0, mbr: 0, mbr2: 0, queue: Vec::new(), imar: 0 }
    }

    pub fn mar(&self) -> (r: u32)
        ensures
            r == self@.mar,
    {
        self.mar
    }

    pub fn mdr(&self) -> (r: u32)
        ensures
            r == self@.mdr,
    {
        self.mdr
    }

    pub fn pc(&self) -> (r: u32)
        ensures
            r == self@.pc,
    {
        self.pc
    }

    /// A copy of this register group, field for field.
    pub fn snapshot(&self) -> (r: MemRegs)
        ensures
            r@ == self@,
    {
        let mut q: Vec<u8> = Vec::new();
        let mut i: usize = 0;
        while i < self.queue.len()
            invariant
                i <= self.queue@.len(),
                q@ == self.queue@.take(i as int),
            decreases self.queue@.len() - i,
        {
            q.push(self.queue[i]);
            proof {
                assert(q@ =~= self.queue@.take(i + 1));
            }
            i = i + 1;
        }
        proof {
            assert(self.queue@.take(self.queue@.len() as int) =~= self.queue@);
        }
        MemRegs {
            mar: self.mar,
            mdr: self.mdr,
            pc: self.pc,
            mbr: self.mbr,
            mbr2: self.mbr2,
            queue: q,
            imar: self.imar,
        }
    }

    /// Republish the queue's front bytes into MBR and MBR2.
    fn load_mbrs(&mut self)
        ensures
            final(self)@ == (MemRegsView {
                mbr: queue_mbr(old(self)@.queue),
                mbr2: queue_mbr2(old(self)@.queue),
                ..old(self)@
            }),
    {
        let a: u8 = if self.queue.len() > 0 {
            self.queue[0]
        } else {
            0
        };
        let b: u8 = if self.queue.len() > 1 {
            self.queue[1]
        } else {
            0
        };
        self.mbr = a;
        self.mbr2 = (b as u16) << 8 | a as u16;
    }

    /// The consuming read of MBR: pops one byte from the fetch queue and
    /// advances PC by exactly 1 (wrapping), returning the byte that was
    /// published.
    pub fn mbr(&mut self) -> (r: u8)
        requires
            old(self).wf(),
        ensures
            r == old(self)@.mbr,
            final(self).wf(),
            final(self)@ == (MemRegsView {
                pc: vstd::wrapping::u32_specs::wrapping_add(old(self)@.pc, 1),
                mbr: queue_mbr(queue_consumed(old(self)@.queue, 1)),
                mbr2: queue_mbr2(queue_consumed(old(self)@.queue, 1)),
                queue: queue_consumed(old(self)@.queue, 1),
                ..old(self)@
            }),
    {
        let val: u8 = self.mbr;
        if self.queue.len() > 0 {
            self.queue.remove(0);
        }
        proof {
            assert(self.queue@ =~= queue_consumed(old(self)@.queue, 1));
        }
        self.load_mbrs();
        self.pc = self.pc.wrapping_add(1);
        val
    }

    /// The consuming read of MBR2: pops two bytes from the fetch queue and
    /// advances PC by exactly 2 (wrapping), returning the half-word that
    /// was published.
    pub fn mbr2(&mut self) -> (r: u16)
        requires
            old(self).wf(),
        ensures
            r == old(self)@.mbr2,
            final(self).wf(),
            final(self)@ == (MemRegsView {
                pc: vstd::wrapping::u32_specs::wrapping_add(old(self)@.pc, 2),
                mbr: queue_mbr(queue_consumed(old(self)@.queue, 2)),
                mbr2: queue_mbr2(queue_consumed(old(self)@.queue, 2)),
                queue: queue_consumed(old(self)@.queue, 2),
                ..old(self)@
            }),
    {
        let val: u16 = self.mbr2;
        if self.queue.len() > 0 {
            self.queue.remove(0);
        }
        if self.queue.len() > 0 {
            self.queue.remove(0);
        }
        proof {
            assert(self.queue@ =~= queue_consumed(old(self)@.queue, 2));
        }
        self.load_mbrs();
        self.pc = self.pc.wrapping_add(2);
        val
    }

    /// `MDR <- ram[MAR]`; fails when MAR is past the RAM bound.
    pub fn read(&mut self, mem: &Ram) -> (r: Result<(), OutOfRange>)
        requires
            old(self).wf(),
            mem.wf(),
        ensures
            final(self).wf(),
            r is Ok <==> old(self)@.mar < RAM_ADDRS,
            r is Ok ==> final(self)@ == (MemRegsView {
                mdr: mem@[old(self)@.mar as int],
                ..old(self)@
            }),
            r is Err ==> *final(self) == *old(self),
    {
        if self.mar < RAM_ADDRS as u32 {
            self.mdr = mem.get(self.mar);
            Ok(())
        } else {
            Err(OutOfRange)
        }
    }

    /// `ram[MAR] <- MDR`; fails when MAR is past the RAM bound.
    pub fn write(&mut self, mem: &mut Ram) -> (r: Result<(), OutOfRange>)
        requires
            old(self).wf(),
            old(mem).wf(),
        ensures
            *final(self) == *old(self),
            final(mem).wf(),
            r is Ok <==> old(self)@.mar < RAM_ADDRS,
            r is Ok ==> final(mem)@ == old(mem)@.update(old(self)@.mar as int, old(self)@.mdr),
            r is Err ==> *final(mem) == *old(mem),
    {
        if self.mar < RAM_ADDRS as u32 {
            mem.set(self.mar, self.mdr);
            Ok(())
        } else {
            Err(OutOfRange)
        }
    }

    /// One fetch step of the instruction-fetch unit: when the queue holds
    /// fewer than 4 bytes, read the word at the internal address, push its
    /// bytes little-endian, and advance the internal address. Fails when
    /// that address is past the RAM bound.
    pub fn fetch(&mut self, mem: &Ram) -> (r: Result<(), OutOfRange>)
        requires
            old(self).wf(),
            mem.wf(),
        ensures
            final(self).wf(),
            r is Ok <==> (old(self)@.queue.len() >= 4 || old(self)@.imar < RAM_ADDRS),
            old(self)@.queue.len() >= 4 ==> *final(self) == *old(self),
            r is Ok && old(self)@.queue.len() < 4 ==> final(self)@ == (MemRegsView {
                queue: old(self)@.queue + word_le_bytes(mem@[old(self)@.imar as int]),
                imar: (old(self)@.imar + 1) as u32,
                mbr: queue_mbr(old(self)@.queue + word_le_bytes(mem@[old(self)@.imar as int])),
                mbr2: queue_mbr2(old(self)@.queue + word_le_bytes(mem@[old(self)@.imar as int])),
                ..old(self)@
            }),
            r is Err ==> *final(self) == *old(self),
    {
        if self.queue.len() < 4 {
            if self.imar >= RAM_ADDRS as u32 {
                return Err(OutOfRange);
            }
            let word: u32 = mem.get(self.imar);
            self.imar = self.imar + 1;
            self.queue.push((word & 0xff) as u8);
            self.queue.push(((word >> 8) & 0xff) as u8);
            self.queue.push(((word >> 16) & 0xff) as u8);
            self.queue.push(((word >> 24) & 0xff) as u8);
            proof {
                assert(self.queue@ =~= old(self)@.queue + word_le_bytes(word));
            }
            self.load_mbrs();
        }
        Ok(())
    }

    /// Writing PC also resets the fetch unit's internal address, so that
    /// later fetches reload from the new program location.
    pub fn update_pc(&mut self, v: u32)
        requires
            old(self).wf(),
        ensures
            final(self).wf(),
            final(self)@ == (MemRegsView { pc: v, imar: v, ..old(self)@ }),
    {
        self.pc = v;
        self.imar = v;
    }

    pub fn update_mar(&mut self, v: u32)
        requires
            old(self).wf(),
        ensures
            final(self).wf(),
            final(self)@ == (MemRegsView { mar: v, ..old(self)@ }),
    {
        self.mar = v;
    }

    pub fn update_mdr(&mut self, v: u32)
        requires
            old(self).wf(),
        ensures
            final(self).wf(),
            final(self)@ == (MemRegsView { mdr: v, ..old(self)@ }),
    {
        self.mdr = v;
    }
}

/// The JAMZ bit of a control-store opcode `[ NEXT_ADDR | JMPC | JAMN | JAMZ ]`.
pub open spec fn opcode_jamz(opcode: u16) -> bool {
    opcode & 1 == 1
}

/// The JAMN bit of a control-store opcode.
pub open spec fn opcode_jamn(opcode: u16) -> bool {
    (opcode >> 1) & 1 == 1
}

/// The JMPC bit of a control-store opcode.
pub open spec fn opcode_jmpc(opcode: u16) -> bool {
    (opcode >> 2) & 1 == 1
}

/// The 9-bit NEXT_ADDR field of a control-store opcode (the 4 highest of
/// the 16 bits are ignored).
pub open spec fn opcode_next(opcode: u16) -> u16 {
    (opcode & 0x0fff) >> 3
}

/// The next MPC: NEXT_ADDR, with bit 8 forced when JAMN fires on N or
/// JAMZ fires on Z, and the current MBR or-ed into the low byte when JMPC
/// is set.
pub open spec fn next_mpc(opcode: u16, z: bool, n: bool, mbr: u8) -> u16 {
    let base = opcode_next(opcode);
    let after_n = if opcode_jamn(opcode) && n {
        base | 0x100
    } else {
        base
    };
    let after_z = if opcode_jamz(opcode) && z {
        after_n | 0x100
    } else {
        after_n
    };
    if opcode_jmpc(opcode) {
        after_z | mbr as u16
    } else {
        after_z
    }
}

/// Builds a control store by filling slots of an initially zeroed image.
pub struct CtrlStoreBuilder {
    firmware: Vec<u64>,
    mpc: u16,
}

impl CtrlStoreBuilder {
    /// Every builder keeps exactly `CS_ADDRS` words and a 9-bit MPC.
    pub open spec fn wf(&self) -> bool {
        &&& self.firmware_view().len() == CS_ADDRS
        &&& self.mpc_view() < CS_ADDRS
    }

    pub closed spec fn firmware_view(&self) -> Seq<u64> {
        self.firmware@
    }

    pub closed spec fn mpc_view(&self) -> u16 {
        self.mpc
    }

    pub fn new() -> (r: CtrlStoreBuilder)
        ensures
            r.wf(),
            r.firmware_view() == Seq::new(CS_ADDRS as nat, |i: int| 0u64),
            r.mpc_view() == 0,
    {
        let firmware: Vec<u64> = vec![0u64; CS_ADDRS];
        proof {
            assert(firmware@ =~= Seq::new(CS_ADDRS as nat, |i: int| 0u64));
        }
        CtrlStoreBuilder { firmware, mpc: 0 }
    }

    /// Set the `n`th word of the store to `v`.
    pub fn set(self, n: u16, v: u64) -> (r: CtrlStoreBuilder)
        requires
            self.wf(),
            n < CS_ADDRS,
        ensures
            r.wf(),
            r.firmware_view() == self.firmware_view().update(n as int, v),
            r.mpc_view() == self.mpc_view(),
    {
        let mut s = self;
        s.firmware.set(n as usize, v);
        s
    }

    /// Set the `n`th word of the store to `v`, in place.
    pub fn set_word(&mut self, n: u16, v: u64)
        requires
            old(self).wf(),
            n < CS_ADDRS,
        ensures
            final(self).wf(),
            final(self).firmware_view() == old(self).firmware_view().update(n as int, v),
            final(self).mpc_view() == old(self).mpc_view(),
    {
        self.firmware.set(n as usize, v);
    }

    /// Load the microinstructions of `v` starting at the `n`th word.
    pub fn load(self, n: u16, v: Vec<u64>) -> (r: CtrlStoreBuilder)
        requires
            self.wf(),
            n + v@.len() <= CS_ADDRS,
        ensures
            r.wf(),
            r.mpc_view() == self.mpc_view(),
            r.firmware_view().len() == CS_ADDRS,
            forall|j: int|
                0 <= j < CS_ADDRS ==> r.firmware_view()[j] == if n <= j < n + v@.len() {
                    v@[j - n]
                } else {
                    self.firmware_view()[j]
                },
    {
        let ghost orig: CtrlStoreBuilder = self;
        let mut s = self;
        let mut i: usize = 0;
        while i < v.len()
            invariant
                s.wf(),
                i <= v@.len(),
                n + v@.len() <= CS_ADDRS,
                s.mpc_view() == orig.mpc_view(),
                forall|j: int|
                    0 <= j < CS_ADDRS ==> s.firmware_view()[j] == if n <= j < n + i {
                        v@[j - n]
                    } else {
                        orig.firmware_view()[j]
                    },
            decreases v@.len() - i,
        {
            let word: u64 = v[i];
            s.firmware.set(i + n as usize, word);
            i = i + 1;
        }
        s
    }

    /// Set the initial MPC, masked to 9 bits.
    pub fn set_mpc(self, byte: u16) -> (r: CtrlStoreBuilder)
        ensures
            r.firmware_view() == self.firmware_view(),
            r.mpc_view() == byte & 0x01ff,
            r.mpc_view() < CS_ADDRS,
    {
        let mut s = self;
        s.mpc = byte & 0x01ff;
        proof {
            assert(byte & 0x01ff < 512) by (bit_vector);
        }
        s
    }

    /// Build a `CtrlStore` from the filled image.
    pub fn build(self) -> (r: CtrlStore)
        requires
            self.wf(),
        ensures
            r.wf(),
            r@ == (CtrlStoreView { firmware: self.firmware_view(), mpc: self.mpc_view() }),
    {
        CtrlStore { firmware: self.firmware, mpc: self.mpc }
    }
}

impl Default for CtrlStoreBuilder {
    fn default() -> (r: CtrlStoreBuilder)
        ensures
            r.wf(),
            r.firmware_view() == Seq::new(CS_ADDRS as nat, |i: int| 0u64),
            r.mpc_view() == 0,
    {
        CtrlStoreBuilder::new()
    }
}

/// The control store as specifications see it: the 512-word image and the
/// micro-program counter.
pub struct CtrlStoreView {
    pub firmware: Seq<u64>,
    pub mpc: u16,
}

/// The 512-entry store of 64-bit microinstructions, with the MPC register
/// that selects the current one.
pub struct CtrlStore {
    firmware: Vec<u64>,
    mpc: u16,
}

impl View for CtrlStore {
    type V = CtrlStoreView;

    closed spec fn view(&self) -> CtrlStoreView {
        CtrlStoreView { firmware: self.firmware@, mpc: self.mpc }
    }
}

impl CtrlStore {
    /// The microinstruction that stops the run loop.
    pub const HALT: u64 = u64::MAX;

    /// The image holds exactly `CS_ADDRS` words and the MPC stays in its
    /// 9-bit range.
    pub open spec fn wf(&self) -> bool {
        &&& self@.firmware.len() == CS_ADDRS
        &&& self@.mpc < CS_ADDRS
    }

    pub fn builder() -> (r: CtrlStoreBuilder)
        ensures
            r.wf(),
            r.firmware_view() == Seq::new(CS_ADDRS as nat, |i: int| 0u64),
            r.mpc_view() == 0,
    {
        CtrlStoreBuilder::new()
    }

    /// The microinstruction at the current MPC.
    pub fn get_mi(&self) -> (r: u64)
        requires
            self.wf(),
        ensures
            r == self@.firmware[self@.mpc as int],
    {
        self.firmware[self.mpc as usize]
    }

    /// A copy of the 512-word image.
    pub fn firmware(&self) -> (r: Vec<u64>)
        ensures
            r@ == self@.firmware,
    {
        let mut out: Vec<u64> = Vec::new();
        let mut i: usize = 0;
        while i < self.firmware.len()
            invariant
                i <= self@.firmware.len(),
                out@ == self@.firmware.take(i as int),
            decreases self@.firmware.len() - i,
        {
            out.push(self.firmware[i]);
            proof {
                assert(out@ =~= self@.firmware.take(i + 1));
            }
            i = i + 1;
        }
        proof {
            assert(self@.firmware.take(self@.firmware.len() as int) =~= self@.firmware);
        }
        out
    }

    /// Update the MPC from an opcode `[ ... | NEXT_ADDR | JMPC | JAMN | JAMZ ]`
    /// and the Z/N flags. When JMPC is set, the current MBR is or-ed into
    /// the low byte — through the consuming read, so the fetch queue loses
    /// that byte and PC advances by 1.
    pub fn update_mpc(&mut self, opcode: u16, z: bool, n: bool, mem_regs: &mut MemRegs)
        requires
            old(self).wf(),
            old(mem_regs).wf(),
        ensures
            final(self).wf(),
            final(mem_regs).wf(),
            final(self)@.firmware == old(self)@.firmware,
            final(self)@.mpc == next_mpc(opcode, z, n, old(mem_regs)@.mbr),
            opcode_jmpc(opcode) ==> final(mem_regs)@ == (MemRegsView {
                pc: vstd::wrapping::u32_specs::wrapping_add(old(mem_regs)@.pc, 1),
                mbr: queue_mbr(queue_consumed(old(mem_regs)@.queue, 1)),
                mbr2: queue_mbr2(queue_consumed(old(mem_regs)@.queue, 1)),
                queue: queue_consumed(old(mem_regs)@.queue, 1),
                ..old(mem_regs)@
            }),
            !opcode_jmpc(opcode) ==> *final(mem_regs) == *old(mem_regs),
    {
        let masked: u16 = opcode & 0x0fff;
        let jamz: bool = (masked & 1) == 1;
        let jamn: bool = ((masked >> 1) & 1) == 1;
        let jmpc: bool = ((masked >> 2) & 1) == 1;
        let base: u16 = masked >> 3;

        proof {
            assert((opcode & 0x0fff) & 1 == opcode & 1) by (bit_vector);
            assert(((opcode & 0x0fff) >> 1) & 1 == (opcode >> 1) & 1) by (bit_vector);
            assert(((opcode & 0x0fff) >> 2) & 1 == (opcode >> 2) & 1) by (bit_vector);
            assert(forall|x: u16, m: u16|
                x < 512 && m < 512 ==> #[trigger] (x | m) < 512) by (bit_vector);
            assert((opcode & 0x0fff) >> 3 < 512) by (bit_vector);
        }

        let mut next_addr: u16 = base;
        if jamn && n {
            next_addr = next_addr | 0x100;
        }
        if jamz && z {
            next_addr = next_addr | 0x100;
        }
        if jmpc {
            let m: u8 = mem_regs.mbr();
            next_addr = next_addr | m as u16;
        }
        self.mpc = next_addr;
    }
}

/// The system registers LV and CPP; CPP starts at the last RAM word.
pub struct SysRegs {
    pub lv: u32,
    pub cpp: u32,
}

impl SysRegs {
    pub fn new() -> (r: SysRegs)
        ensures
            r.lv == 0,
            r.cpp == RAM_ADDRS - 1,
    {
        SysRegs { lv: 0, cpp: (RAM_ADDRS as u32) - 1 }
    }
}

/// The sixteen general-purpose registers, in the order RA, T0..=T3,
/// S0..=S6, A0..=A3.
pub struct GenRegs {
    regs: Vec<u32>,
}

impl View for GenRegs {
    type V = Seq<u32>;

    closed spec fn view(&self) -> Seq<u32> {
        self.regs@
    }
}

impl GenRegs {
    pub open spec fn wf(&self) -> bool {
        self@.len() == 16
    }

    pub fn new() -> (r: GenRegs)
        ensures
            r.wf(),
            r@ == Seq::new(16nat, |i: int| 0u32),
    {
        let regs: Vec<u32> = vec![0u32; 16];
        proof {
            assert(regs@ =~= Seq::new(16nat, |i: int| 0u32));
        }
        GenRegs { regs }
    }

    /// The `id`th register, or `None` past the sixteen that exist.
    pub fn get(&self, id: usize) -> (r: Option<u32>)
        requires
            self.wf(),
        ensures
            r == if id < 16 {
                Some(self@[id as int])
            } else {
                Option::<u32>::None
            },
    {
        if id < self.regs.len() {
            Some(self.regs[id])
        } else {
            None
        }
    }

    /// Write the `id`th register.
    pub fn set(&mut self, id: usize, v: u32)
        requires
            old(self).wf(),
            id < 16,
        ensures
            final(self).wf(),
            final(self)@ == old(self)@.update(id as int, v),
    {
        self.regs.set(id, v);
    }
}

/// The whole register file as specifications see it.
pub struct RegistersView {
    pub mem: MemRegsView,
    pub lv: u32,
    pub cpp: u32,
    pub gen: Seq<u32>,
}

/// The whole register file: memory registers, system registers, and the
/// general-purpose registers.
pub struct Registers {
    pub mem: MemRegs,
    pub sys: SysRegs,
    pub gen: GenRegs,
}

impl View for Registers {
    type V = RegistersView;

    open spec fn view(&self) -> RegistersView {
        RegistersView { mem: self.mem@, lv: self.sys.lv, cpp: self.sys.cpp, gen: self.gen@ }
    }
}

impl Registers {
    pub open spec fn wf(&self) -> bool {
        &&& self.mem.wf()
        &&& self.gen.wf()
    }

    /// The register file at power-on: everything zero but CPP, which
    /// starts at the last RAM word.
    pub open spec fn initial() -> RegistersView {
        RegistersView {
            mem: MemRegsView {
                mar: 0,
                mdr: 0,
                pc: 0,
                mbr: 0,
                mbr2: 0,
                queue: Seq::empty(),
                imar: 0,
            },
            lv: 0,
            cpp: (RAM_ADDRS - 1) as u32,
            gen: Seq::new(16nat, |i: int| 0u32),
        }
    }

    pub fn new() -> (r: Registers)
        ensures
            r.wf(),
            r@ == Registers::initial(),
            r.mem@ == (MemRegsView {
                mar: 0,
                mdr: 0,
                pc: 0,
                mbr: 0,
                mbr2: 0,
                queue: Seq::empty(),
                imar: 0,
            }),
            r.sys.lv == 0,
            r.sys.cpp == RAM_ADDRS - 1,
            r.gen@ == Seq::new(16nat, |i: int| 0u32),
    {
        Registers { mem: MemRegs::new(), sys: SysRegs::new(), gen: GenRegs::new() }
    }

    /// A snapshot of another register file, field for field.
    pub fn from(regs: &Registers) -> (r: Registers)
        requires
            regs.wf(),
        ensures
            r.wf(),
            r.mem@ == regs.mem@,
            r.sys.lv == regs.sys.lv,
            r.sys.cpp == regs.sys.cpp,
            r.gen@ == regs.gen@,
    {
        let mut gen = GenRegs::new();
        let mut i: usize = 0;
        while i < 16
            invariant
                gen.wf(),
                i <= 16,
                regs.wf(),
                forall|j: int| 0 <= j < 16 ==> gen@[j] == if j < i {
                    regs.gen@[j]
                } else {
                    0u32
                },
            decreases 16 - i,
        {
            let v: u32 = match regs.gen.get(i) {
                Some(x) => x,
                None => 0,
            };
            gen.set(i, v);
            i = i + 1;
        }
        proof {
            assert(gen@ =~= regs.gen@);
        }
        let mem = regs.mem.snapshot();
        let sys = SysRegs { lv: regs.sys.lv, cpp: regs.sys.cpp };
        Registers { mem, sys, gen }
    }
}

} // verus!
