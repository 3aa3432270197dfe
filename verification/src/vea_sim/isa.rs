//! Constants and small fixed structures of the ISA that other modules share.
use crate::text;
use crate::vea_sim::error::{Error, Msg, Result};
use vstd::prelude::*;

verus! {

/// Every instruction starts on a 4-byte boundary: after an instruction the
/// PC moves to `align_up(pc + length, ALIGNMENT)`.
pub const ALIGNMENT: u64 = 4;

/// How many registers Vea has.
pub const NUM_REGS: usize = 32;

/// The general-purpose register file.
pub type RegisterFile = [u64; NUM_REGS];

/// Internal index of the PC, which programs cannot name.
pub const PC_REG: usize = NUM_REGS + 1;

/// The widest instruction frame. Fetch always pulls a whole frame so Decode
/// sees every byte it might need.
pub const MAX_INSN_BYTES: usize = 13;

/// Size of the instruction cache window (see `nstep::icache`).
pub const ICACHE_SIZE: usize = 512;

/// Size of the data cache, which is not modelled yet.
pub const DCACHE_SIZE: usize = 0;

/// Cycles a modelled memory read stalls for.
pub const MEM_READ_DELAY: u64 = 3;

/// Cycles a modelled memory write stalls for.
pub const MEM_WRITE_DELAY: u64 = 3;

/// A register index.
pub struct VeaReg(pub u8);

impl VeaReg {
    /// A general-purpose register or the PC.
    pub fn is_valid(&self) -> (b: bool)
        ensures
            b == (self.0 < NUM_REGS || self.0 == PC_REG),
    {
        self.0 < NUM_REGS as u8 || self.0 == PC_REG as u8
    }

    /// `PC` for the PC, `r<n>` otherwise.
    pub fn name(&self) -> (s: String)
        ensures
            s@ == if self.0 == PC_REG {
                seq!['P', 'C']
            } else {
                seq!['r'] + text::digits(self.0 as nat, 10)
            },
    {
        if self.0 == PC_REG as u8 {
            let s = String::from_str("PC");
            proof {
                reveal_strlit("PC");
            }
            s
        } else {
            let mut m = Msg::new("r");
            proof {
                reveal_strlit("r");
            }
            m.dec(self.0 as u64);
            text::string_of(m.chars.as_slice())
        }
    }

    /// The index as a `usize`.
    pub fn idx(&self) -> (i: usize)
        ensures
            i == self.0,
    {
        self.0 as usize
    }
}

/// `v` rounded up to the next multiple of `a`.
pub open spec fn spec_align_up(v: int, a: int) -> int {
    (v + a - 1) / a * a
}

/// Round `v` up to the next multiple of `a`.
pub fn align_up(v: u64, a: u64) -> (r: u64)
    requires
        a > 0,
        v + a - 1 <= u64::MAX,
    ensures
        r == spec_align_up(v as int, a as int),
        v <= r,
        r % a == 0,
        r < v + a,
{
    proof {
        lemma_align_up(v as int, a as int);
    }
    (v + (a - 1)) / a * a
}

pub proof fn lemma_align_up(v: int, a: int)
    requires
        a > 0,
        v >= 0,
    ensures
        v <= spec_align_up(v, a) < v + a,
        spec_align_up(v, a) % a == 0,
        spec_align_up(v, a) >= 0,
{
    let q = (v + a - 1) / a;
    vstd::arithmetic::div_mod::lemma_fundamental_div_mod(v + a - 1, a);
    vstd::arithmetic::div_mod::lemma_mod_multiples_basic(q, a);
    assert(q * a == a * q) by (nonlinear_arith);
    assert(0 <= (v + a - 1) % a < a) by {
        vstd::arithmetic::div_mod::lemma_mod_bound(v + a - 1, a);
    }
    assert(q >= 0) by {
        vstd::arithmetic::div_mod::lemma_div_pos_is_pos(v + a - 1, a);
    }
    assert(q * a >= 0) by (nonlinear_arith)
        requires
            q >= 0,
            a > 0,
    ;
}

/// Length of the frame, in bytes, from the high nibble of the opinfo byte.
pub open spec fn spec_insn_len(opinfo: u8) -> u8 {
    opinfo / 16
}

/// Frame length from an opinfo byte.
pub fn insn_len(opinfo: u8) -> (n: u8)
    ensures
        n == spec_insn_len(opinfo),
        n <= 15,
{
    opinfo / 16
}

/// Bytes of immediate that follow offset `at` in a frame: the frame length
/// less `at`, or none when the frame ends before `at`.
pub open spec fn spec_imm_len(opinfo: u8, at: u8) -> u8 {
    if spec_insn_len(opinfo) > at {
        (spec_insn_len(opinfo) - at) as u8
    } else {
        0
    }
}

/// Immediate payload length of a frame whose immediate starts at `at`.
pub fn imm_len(opinfo: u8, at: u8) -> (n: u8)
    ensures
        n == spec_imm_len(opinfo, at),
        n <= 15,
{
    let len = insn_len(opinfo);
    if len > at {
        len - at
    } else {
        0
    }
}

/// The four condition-code bits.
pub struct ConditionCodes {
    data: u8,
}

impl ConditionCodes {
    pub const ZERO_MASK: u8 = 0b1000;

    pub const NEG_MASK: u8 = 0b0100;

    pub const CARRY_MASK: u8 = 0b0010;

    pub const OVERFLOW_MASK: u8 = 0b0001;

    /// The packed flag nibble.
    pub closed spec fn bits(&self) -> u8 {
        self.data
    }

    pub open spec fn spec_zero(&self) -> bool {
        self.bits() & 8 != 0
    }

    pub open spec fn spec_neg(&self) -> bool {
        self.bits() & 4 != 0
    }

    pub open spec fn spec_carry(&self) -> bool {
        self.bits() & 2 != 0
    }

    pub open spec fn spec_overflow(&self) -> bool {
        self.bits() & 1 != 0
    }

    /// Flags from a packed nibble; bits above the nibble are refused.
    pub fn new(masks: u8) -> (r: Result<Self>)
        ensures
            masks <= 0xF <==> r is Ok,
            r matches Ok(cc) ==> cc.bits() == masks,
            r matches Err(e) ==> e.0@ == "condition code mask 0b"@ + crate::text::zero_pad(
                crate::text::digits(masks as nat, 2),
                4,
            ) + " has undefined bits set"@,
    {
        if masks > 0xF {
            let mut m = Msg::new("condition code mask 0b");
            let bits = crate::text::fmt_radix(masks as u64, 2, 4);
            m.chars(bits.as_slice());
            m.lit(" has undefined bits set");
            return Err(m.error());
        }
        Ok(ConditionCodes { data: masks })
    }

    /// All flags clear.
    pub fn reset() -> (cc: Self)
        ensures
            cc.bits() == 0,
            !cc.spec_zero() && !cc.spec_neg() && !cc.spec_carry() && !cc.spec_overflow(),
    {
        proof {
            assert(0u8 & 8 == 0 && 0u8 & 4 == 0 && 0u8 & 2 == 0 && 0u8 & 1 == 0) by (bit_vector);
        }
        ConditionCodes { data: 0 }
    }

    /// Overwrite all four flags at once.
    pub fn set(&mut self, zero: bool, neg: bool, carry: bool, overflow: bool)
        ensures
            final(self).spec_zero() == zero,
            final(self).spec_neg() == neg,
            final(self).spec_carry() == carry,
            final(self).spec_overflow() == overflow,
            final(self).bits() <= 0xF,
    {
        let z: u8 = if zero { Self::ZERO_MASK } else { 0 };
        let n: u8 = if neg { Self::NEG_MASK } else { 0 };
        let c: u8 = if carry { Self::CARRY_MASK } else { 0 };
        let v: u8 = if overflow { Self::OVERFLOW_MASK } else { 0 };
        let d = z | n | c | v;
        proof {
            assert((z == 8 || z == 0) && (n == 4 || n == 0) && (c == 2 || c == 0) && (v == 1 || v
                == 0) ==> {
                let d = z | n | c | v;
                &&& (d & 8 != 0) == (z == 8)
                &&& (d & 4 != 0) == (n == 4)
                &&& (d & 2 != 0) == (c == 2)
                &&& (d & 1 != 0) == (v == 1)
                &&& d <= 0xF
            }) by (bit_vector);
        }
        self.data = d;
    }

    pub fn zero(&self) -> (b: bool)
        ensures
            b == self.spec_zero(),
    {
        self.data & Self::ZERO_MASK != 0
    }

    pub fn neg(&self) -> (b: bool)
        ensures
            b == self.spec_neg(),
    {
        self.data & Self::NEG_MASK != 0
    }

    pub fn carry(&self) -> (b: bool)
        ensures
            b == self.spec_carry(),
    {
        self.data & Self::CARRY_MASK != 0
    }

    pub fn overflow(&self) -> (b: bool)
        ensures
            b == self.spec_overflow(),
    {
        self.data & Self::OVERFLOW_MASK != 0
    }
}

} // verus!
