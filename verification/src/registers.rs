//! Fixed-width registers with masked arithmetic, shifts and complement.
//!
//! A `Register` is a value together with an all-ones bit mask `2^w - 1`
//! derived from its width `w` in bits. Every mutation keeps the value
//! inside the mask. The contracts below describe each operation
//! arithmetically: masking by `2^w - 1` is the same as reducing modulo
//! `2^w`, which `lemma_mask_is_mod` records once and for all.

use vstd::arithmetic::div_mod::lemma_mod_self_0;
use vstd::arithmetic::div_mod::lemma_small_mod;
use vstd::prelude::*;

verus! {

/// The bit masks a register can carry: `2^w - 1` for a width `w` of at
/// most sixteen bits.
pub open spec fn is_ones_mask(m: u16) -> bool {
    ||| m == 0x0000
    ||| m == 0x0001
    ||| m == 0x0003
    ||| m == 0x0007
    ||| m == 0x000F
    ||| m == 0x001F
    ||| m == 0x003F
    ||| m == 0x007F
    ||| m == 0x00FF
    ||| m == 0x01FF
    ||| m == 0x03FF
    ||| m == 0x07FF
    ||| m == 0x0FFF
    ||| m == 0x1FFF
    ||| m == 0x3FFF
    ||| m == 0x7FFF
    ||| m == 0xFFFF
}

/// The mask `2^w - 1` for a register of `bits` bits; widths of sixteen
/// or more all use the full sixteen-bit mask.
pub open spec fn mask_for_width(bits: u8) -> u16 {
    if bits == 0 {
        0x0000
    } else if bits == 1 {
        0x0001
    } else if bits == 2 {
        0x0003
    } else if bits == 3 {
        0x0007
    } else if bits == 4 {
        0x000F
    } else if bits == 5 {
        0x001F
    } else if bits == 6 {
        0x003F
    } else if bits == 7 {
        0x007F
    } else if bits == 8 {
        0x00FF
    } else if bits == 9 {
        0x01FF
    } else if bits == 10 {
        0x03FF
    } else if bits == 11 {
        0x07FF
    } else if bits == 12 {
        0x0FFF
    } else if bits == 13 {
        0x1FFF
    } else if bits == 14 {
        0x3FFF
    } else if bits == 15 {
        0x7FFF
    } else {
        0xFFFF
    }
}

/// Masking by an all-ones mask is reduction modulo the next power of two.
pub proof fn lemma_mask_is_mod(v: u16, m: u16)
    requires
        is_ones_mask(m),
    ensures
        v & m == v as int % (m as int + 1),
        v & m <= m,
{
    assert((v & m) as int == v as int % (m as int + 1) && v & m <= m) by (bit_vector)
        requires
            m == 0x0000 || m == 0x0001 || m == 0x0003 || m == 0x0007 || m == 0x000F || m == 0x001F
                || m == 0x003F || m == 0x007F || m == 0x00FF || m == 0x01FF || m == 0x03FF
                || m == 0x07FF || m == 0x0FFF || m == 0x1FFF || m == 0x3FFF || m == 0x7FFF
                || m == 0xFFFF,
    ;
}

/// A bitwise conjunction never exceeds either operand.
pub proof fn lemma_and_bounded(a: u16, b: u16)
    ensures
        a & b <= a,
        a & b <= b,
{
    assert(a & b <= a && a & b <= b) by (bit_vector);
}

/// The complement of `v` under an all-ones mask, as plain arithmetic:
/// for `v` inside the mask, `(!v) & m` equals `m - v`.
pub open spec fn complement_of(v: u16, m: u16) -> int {
    m - v
}

/// A scalar of a fixed width in bits: the pair of a value and the
/// all-ones mask of that width. Every operation stores its result
/// masked, so the value never exceeds the mask.
pub struct Register {
    value: u16,
    mask: u16,
}

impl Register {
    /// The current value.
    pub closed spec fn value(&self) -> u16 {
        self.value
    }

    /// The all-ones mask `2^w - 1` of this register's width `w`.
    pub closed spec fn mask(&self) -> u16 {
        self.mask
    }

    /// The modulus `2^w` in which this register's arithmetic lives.
    pub open spec fn modulus(&self) -> int {
        self.mask() + 1
    }

    /// Well-formed: the mask has the all-ones shape and the value lies
    /// inside it.
    pub open spec fn wf(&self) -> bool {
        &&& is_ones_mask(self.mask())
        &&& self.value() <= self.mask()
    }

    /// A zeroed register of `bits` bits; sixteen or more bits use the
    /// full sixteen-bit mask.
    pub fn new(bits: u8) -> (r: Register)
        ensures
            r.wf(),
            r.value() == 0,
            r.mask() == mask_for_width(bits),
    {
        let mask: u16 = if bits == 0 {
            0x0000
        } else if bits == 1 {
            0x0001
        } else if bits == 2 {
            0x0003
        } else if bits == 3 {
            0x0007
        } else if bits == 4 {
            0x000F
        } else if bits == 5 {
            0x001F
        } else if bits == 6 {
            0x003F
        } else if bits == 7 {
            0x007F
        } else if bits == 8 {
            0x00FF
        } else if bits == 9 {
            0x01FF
        } else if bits == 10 {
            0x03FF
        } else if bits == 11 {
            0x07FF
        } else if bits == 12 {
            0x0FFF
        } else if bits == 13 {
            0x1FFF
        } else if bits == 14 {
            0x3FFF
        } else if bits == 15 {
            0x7FFF
        } else {
            0xFFFF
        };
        Register { value: 0, mask }
    }

    /// Read the value.
    pub fn get(&self) -> (r: u16)
        ensures
            r == self.value(),
    {
        self.value
    }

    /// Store `v & mask`, which reduces `v` modulo `2^w`.
    pub fn set(&mut self, v: u16)
        requires
            old(self).wf(),
        ensures
            final(self).wf(),
            final(self).mask() == old(self).mask(),
            final(self).value() == v & old(self).mask(),
            final(self).value() as int == v as int % old(self).modulus(),
            v <= old(self).mask() ==> final(self).value() == v,
    {
        proof {
            lemma_mask_is_mod(v, self.mask);
            if v <= self.mask {
                lemma_small_mod(v as nat, (self.mask + 1) as nat);
            }
        }
        self.value = v & self.mask;
    }

    /// Reset to zero.
    pub fn clear(&mut self)
        requires
            old(self).wf(),
        ensures
            final(self).wf(),
            final(self).mask() == old(self).mask(),
            final(self).value() == 0,
    {
        self.value = 0;
    }

    /// Add one, wrapping to zero past the mask.
    pub fn increment(&mut self)
        requires
            old(self).wf(),
        ensures
            final(self).wf(),
            final(self).mask() == old(self).mask(),
            final(self).value() == (if old(self).value() == old(self).mask() {
                0int
            } else {
                old(self).value() + 1
            }),
            final(self).value() as int == (old(self).value() + 1) % old(self).modulus(),
    {
        proof {
            if self.value == self.mask {
                lemma_mod_self_0(self.mask + 1);
            } else {
                lemma_small_mod((self.value + 1) as nat, (self.mask + 1) as nat);
            }
        }
        if self.value == self.mask {
            self.value = 0;
        } else {
            self.value = self.value + 1;
        }
    }

    /// Conjoin the value with `v` bitwise.
    pub fn logic_and(&mut self, v: u16)
        requires
            old(self).wf(),
        ensures
            final(self).wf(),
            final(self).mask() == old(self).mask(),
            final(self).value() == old(self).value() & v,
    {
        proof {
            lemma_and_bounded(self.value, v);
        }
        self.value = self.value & v;
    }

    /// Add `v` in a domain wider than the mask, keep the low bits, and
    /// report whether the true sum overflowed the mask.
    pub fn add(&mut self, v: u16) -> (carry: u16)
        requires
            old(self).wf(),
        ensures
            final(self).wf(),
            final(self).mask() == old(self).mask(),
            final(self).value() as int == (old(self).value() + v) % old(self).modulus(),
            carry == (if old(self).value() + v > old(self).mask() {
                1u16
            } else {
                0u16
            }),
            old(self).value() + v <= old(self).mask() ==> final(self).value() == old(
                self,
            ).value() + v,
    {
        let sum: u32 = self.value as u32 + v as u32;
        let carry: u16 = if sum > self.mask as u32 {
            1
        } else {
            0
        };
        proof {
            if sum <= self.mask as u32 {
                lemma_small_mod(sum as nat, (self.mask + 1) as nat);
            }
        }
        self.value = (sum % (self.mask as u32 + 1)) as u16;
        carry
    }

    /// Replace the value by its bitwise complement under the mask,
    /// which is `mask - value`.
    pub fn complement(&mut self)
        requires
            old(self).wf(),
        ensures
            final(self).wf(),
            final(self).mask() == old(self).mask(),
            final(self).value() == complement_of(old(self).value(), old(self).mask()),
    {
        self.value = self.mask - self.value;
    }

    /// Shift right by one: the old low bit comes back out, and a
    /// non-zero `msb` sets the new top bit of the register's width.
    pub fn shift_right(&mut self, msb: u16) -> (lsb: u16)
        requires
            old(self).wf(),
        ensures
            final(self).wf(),
            final(self).mask() == old(self).mask(),
            lsb == old(self).value() % 2,
            final(self).value() as int == old(self).value() as int / 2 + (if msb != 0 {
                old(self).modulus() / 2
            } else {
                0int
            }),
    {
        let lsb: u16 = self.value % 2;
        let half: u16 = self.value / 2;
        let top: u16 = if self.mask == 0xFFFF {
            0x8000
        } else {
            (self.mask + 1) / 2
        };
        self.value = if msb != 0 {
            half + top
        } else {
            half
        };
        lsb
    }

    /// Shift left by one: the old top bit comes back out, and the new
    /// low bit is `lsb`'s low bit.
    pub fn shift_left(&mut self, lsb: u16) -> (msb: u16)
        requires
            old(self).wf(),
        ensures
            final(self).wf(),
            final(self).mask() == old(self).mask(),
            msb == (if old(self).modulus() / 2 > 0 && old(self).value() >= old(self).modulus()
                / 2 {
                1u16
            } else {
                0u16
            }),
            final(self).value() as int == (2 * old(self).value() + (lsb % 2)) % old(
                self,
            ).modulus(),
    {
        let top: u16 = if self.mask == 0xFFFF {
            0x8000
        } else {
            (self.mask + 1) / 2
        };
        let msb: u16 = if top > 0 && self.value >= top {
            1
        } else {
            0
        };
        let doubled: u32 = 2 * (self.value as u32) + (lsb % 2) as u32;
        self.value = (doubled % (self.mask as u32 + 1)) as u16;
        msb
    }
}

/// A well-formed register's value always lies below `2^w`: no
/// operation can leave a value outside the register's width.
pub proof fn lemma_register_value_bounded(r: &Register)
    requires
        r.wf(),
    ensures
        r.value() < r.modulus(),
{
}

/// Complementing a register twice restores its value: the complement
/// under the mask is an involution.
pub proof fn lemma_complement_involution(v: u16, m: u16)
    requires
        v <= m,
    ensures
        complement_of(complement_of(v, m) as u16, m) == v,
{
}

/// The fifteen named registers of the machine, each with its width.
pub struct Registers {
    /// Address register, twelve bits.
    pub ar: Register,
    /// Program counter, twelve bits.
    pub pc: Register,
    /// Data register, sixteen bits.
    pub dr: Register,
    /// Accumulator, sixteen bits.
    pub ac: Register,
    /// Instruction register, sixteen bits.
    pub ir: Register,
    /// Temporary register, sixteen bits.
    pub tr: Register,
    /// Input register, eight bits.
    pub inpr: Register,
    /// Output register, eight bits.
    pub outr: Register,
    /// Sequence counter, three bits.
    pub sc: Register,
    /// Carry / extend flip-flop, one bit.
    pub e: Register,
    /// Start / stop flip-flop, one bit; zero means halted.
    pub s: Register,
    /// Interrupt-pending flip-flop, one bit.
    pub r: Register,
    /// Interrupt-enable flip-flop, one bit.
    pub ien: Register,
    /// Input-ready flag, one bit.
    pub fgi: Register,
    /// Output-ready flag, one bit.
    pub fgo: Register,
}

impl Registers {
    /// Every register is well formed and carries the mask of its
    /// documented width.
    pub open spec fn wf(&self) -> bool {
        &&& self.ar.wf() && self.ar.mask() == 0x0FFF
        &&& self.pc.wf() && self.pc.mask() == 0x0FFF
        &&& self.dr.wf() && self.dr.mask() == 0xFFFF
        &&& self.ac.wf() && self.ac.mask() == 0xFFFF
        &&& self.ir.wf() && self.ir.mask() == 0xFFFF
        &&& self.tr.wf() && self.tr.mask() == 0xFFFF
        &&& self.inpr.wf() && self.inpr.mask() == 0x00FF
        &&& self.outr.wf() && self.outr.mask() == 0x00FF
        &&& self.sc.wf() && self.sc.mask() == 0x0007
        &&& self.e.wf() && self.e.mask() == 0x0001
        &&& self.s.wf() && self.s.mask() == 0x0001
        &&& self.r.wf() && self.r.mask() == 0x0001
        &&& self.ien.wf() && self.ien.mask() == 0x0001
        &&& self.fgi.wf() && self.fgi.mask() == 0x0001
        &&& self.fgo.wf() && self.fgo.mask() == 0x0001
    }

    /// All fifteen registers hold zero.
    pub open spec fn all_zero(&self) -> bool {
        &&& self.ar.value() == 0
        &&& self.pc.value() == 0
        &&& self.dr.value() == 0
        &&& self.ac.value() == 0
        &&& self.ir.value() == 0
        &&& self.tr.value() == 0
        &&& self.inpr.value() == 0
        &&& self.outr.value() == 0
        &&& self.sc.value() == 0
        &&& self.e.value() == 0
        &&& self.s.value() == 0
        &&& self.r.value() == 0
        &&& self.ien.value() == 0
        &&& self.fgi.value() == 0
        &&& self.fgo.value() == 0
    }

    /// The register file at power-on: every register zero.
    pub fn new() -> (r: Registers)
        ensures
            r.wf(),
            r.all_zero(),
    {
        Registers {
            ar: Register::new(12),
            pc: Register::new(12),
            dr: Register::new(16),
            ac: Register::new(16),
            ir: Register::new(16),
            tr: Register::new(16),
            inpr: Register::new(8),
            outr: Register::new(8),
            sc: Register::new(3),
            e: Register::new(1),
            s: Register::new(1),
            r: Register::new(1),
            ien: Register::new(1),
            fgi: Register::new(1),
            fgo: Register::new(1),
        }
    }
}

} // verus!
