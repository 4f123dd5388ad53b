//! The combinational arithmetic/logic unit plus shifter.
//!
//! A 9-bit control word selects the operation: the low four bits gate and
//! invert the operands (`inc`, `invA`, `enB`, `enA`), bits 4..=6 pick the
//! function, and bits 7..=8 drive the shifter. The Z and N flags are
//! latched from the result *before* the shifter.
//!
//! Additions and multiplications wrap modulo 2^32. Division or modulus by
//! zero yields the all-ones word; the unit never traps.

use vstd::prelude::*;

verus! {

/// True when the control word asks for `+1` on the adder.
pub open spec fn alu_inc(opcode: u16) -> bool {
    opcode & 0b000000001 == 0b000000001
}

/// The effective A operand: gated by `enA` (bit 3), then inverted by
/// `invA` (bit 1).
pub open spec fn alu_a_input(opcode: u16, a: u32) -> u32 {
    let base = if opcode & 0b000001000 == 0b000001000 {
        a
    } else {
        0u32
    };
    if opcode & 0b000000010 == 0b000000010 {
        !base
    } else {
        base
    }
}

/// The effective B operand: gated by `enB` (bit 2).
pub open spec fn alu_b_input(opcode: u16, b: u32) -> u32 {
    if opcode & 0b000000100 == 0b000000100 {
        b
    } else {
        0u32
    }
}

/// The function code: bits 4..=6 of the control word, kept in place.
pub open spec fn alu_func_code(opcode: u16) -> u16 {
    opcode & 0b001110000
}

/// The shifter code: bits 7..=8 of the control word.
pub open spec fn alu_shift_code(opcode: u16) -> u8 {
    ((opcode >> 7) & 0b11) as u8
}

/// `a + b (+ 1)` wrapping modulo 2^32.
pub open spec fn alu_add(a: u32, b: u32, inc: bool) -> u32 {
    vstd::wrapping::u32_specs::wrapping_add(
        vstd::wrapping::u32_specs::wrapping_add(a, b),
        if inc {
            1u32
        } else {
            0u32
        },
    )
}

/// The function block's result, before the shifter. The flags are latched
/// from this value. Division or modulus by zero yields all ones.
pub open spec fn alu_core(func: u16, a: u32, b: u32, inc: bool) -> u32 {
    if func == 0b000000000 {
        a & b
    } else if func == 0b000010000 {
        a | b
    } else if func == 0b000100000 {
        !b
    } else if func == 0b000110000 {
        alu_add(a, b, inc)
    } else if func == 0b001000000 {
        a ^ b
    } else if func == 0b001010000 {
        vstd::wrapping::u32_specs::wrapping_mul(a, b)
    } else if func == 0b001100000 {
        if b == 0 {
            u32::MAX
        } else {
            a / b
        }
    } else {
        if b == 0 {
            u32::MAX
        } else {
            a % b
        }
    }
}

/// The shifter: identity, logical right by 1, left by 8, or left by 1.
pub open spec fn alu_shifted(code: u8, c: u32) -> u32 {
    if code == 0 {
        c
    } else if code == 1 {
        c >> 1
    } else if code == 2 {
        c << 8
    } else {
        c << 1
    }
}

/// The full combinational result of one control word on operands `a`, `b`.
pub open spec fn alu_eval(opcode: u16, a: u32, b: u32) -> u32 {
    alu_shifted(
        alu_shift_code(opcode),
        alu_core(
            alu_func_code(opcode),
            alu_a_input(opcode, a),
            alu_b_input(opcode, b),
            alu_inc(opcode),
        ),
    )
}

/// The latched state of the unit, as specifications see it.
pub struct AluState {
    pub func: u16,
    pub inc: bool,
    pub a: u32,
    pub b: u32,
    pub shift: u8,
    pub z: bool,
    pub n: bool,
}

pub struct Alu {
    func: u16,
    inc: bool,
    a: u32,
    b: u32,
    shift: u8,
    z: bool,
    n: bool,
}

impl View for Alu {
    type V = AluState;

    closed spec fn view(&self) -> AluState {
        AluState {
            func: self.func,
            inc: self.inc,
            a: self.a,
            b: self.b,
            shift: self.shift,
            z: self.z,
            n: self.n,
        }
    }
}

impl Alu {
    pub fn new() -> (r: Alu)
        ensures
            r@ == (AluState { func: 0, inc: false, a: 0, b: 0, shift: 0, z: false, n: false }),
    {
        Alu { func: 0, inc: false, a: 0, b: 0, shift: 0, z: false, n: false }
    }

    /// Latch the operands and decode the 9-bit control word.
    pub fn entry(&mut self, opcode: u16, a: u32, b: u32)
        requires
            opcode < 512,
        ensures
            final(self)@ == (AluState {
                func: alu_func_code(opcode),
                inc: alu_inc(opcode),
                a: alu_a_input(opcode, a),
                b: alu_b_input(opcode, b),
                shift: alu_shift_code(opcode),
                z: old(self)@.z,
                n: old(self)@.n,
            }),
    {
        let inc: bool = (opcode & 0b000000001) == 0b000000001;
        let inva: bool = (opcode & 0b000000010) == 0b000000010;
        let enb: bool = (opcode & 0b000000100) == 0b000000100;
        let ena: bool = (opcode & 0b000001000) == 0b000001000;

        let gated_a: u32 = if ena {
            a
        } else {
            0
        };
        self.a = if inva {
            !gated_a
        } else {
            gated_a
        };
        self.b = if enb {
            b
        } else {
            0
        };
        self.func = opcode & 0b001110000;
        self.inc = inc;
        self.shift = ((opcode >> 7) & 0b11) as u8;
    }

    /// Run the function block and the shifter on the latched operands.
    /// Z and N are latched from the pre-shift result.
    pub fn op(&mut self) -> (r: u32)
        ensures
            ({
                let c = alu_core(old(self)@.func, old(self)@.a, old(self)@.b, old(self)@.inc);
                &&& r == alu_shifted(old(self)@.shift, c)
                &&& final(self)@ == (AluState {
                    z: c == 0u32,
                    n: c >> 31 == 1u32,
                    ..old(self)@
                })
            }),
    {
        let c: u32 = match self.func {
            0b000000000 => self.a & self.b,
            0b000010000 => self.a | self.b,
            0b000100000 => !self.b,
            0b000110000 => {
                let sum: u32 = self.a.wrapping_add(self.b);
                if self.inc {
                    sum.wrapping_add(1)
                } else {
                    sum
                }
            },
            0b001000000 => self.a ^ self.b,
            0b001010000 => self.a.wrapping_mul(self.b),
            0b001100000 => {
                if self.b == 0 {
                    u32::MAX
                } else {
                    self.a / self.b
                }
            },
            _ => {
                if self.b == 0 {
                    u32::MAX
                } else {
                    self.a % self.b
                }
            },
        };
        self.z = c == 0;
        self.n = (c >> 31) == 1;
        match self.shift {
            0 => c,
            1 => c >> 1,
            2 => c << 8,
            _ => c << 1,
        }
    }

    pub fn z(&self) -> (r: bool)
        ensures
            r == self@.z,
    {
        self.z
    }

    pub fn n(&self) -> (r: bool)
        ensures
            r == self@.n,
    {
        self.n
    }
}

impl Default for Alu {
    fn default() -> (r: Alu)
        ensures
            r@ == (AluState { func: 0, inc: false, a: 0, b: 0, shift: 0, z: false, n: false }),
    {
        Alu::new()
    }
}

} // verus!
