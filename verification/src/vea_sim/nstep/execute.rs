//! The execute stage: the arithmetic, comparisons and memory accesses of
//! already-decoded instructions.
use crate::vea_sim::error::{Error, Msg, Result};
use crate::vea_sim::assembler::lex::sext;
use crate::vea_sim::memory::{access_fault_msg, be_val, in_space, pow256, valid_width, written, MemGuard};
use crate::vea_sim::nstep::{Commit, DecodedOp, ExWb, Processor, ProcV};
use crate::text;
use vstd::prelude::*;

verus! {

/// Flags from `a - b`: Z when equal, C when no unsigned borrow; `cmp`
/// (unsigned) puts the borrow in N and leaves V clear, `cmp.s` (signed) puts
/// the sign of the wrapped difference in N and the signed overflow in V.
pub open spec fn compare_spec(a: i64, b: i64, signed: bool) -> (bool, bool, bool, bool) {
    let ua = a as u64;
    let ub = b as u64;
    let neg = if signed {
        a.wrapping_sub(b) < 0
    } else {
        ua < ub
    };
    let ov = signed && !(i64::MIN <= a - b <= i64::MAX);
    (ua == ub, neg, ua >= ub, ov)
}

/// The ALU, indexed by the low nibble of the opcode: add, sub, and, or, xor,
/// shl, shr (logical), sar (arithmetic), mul, div (all wrapping); `None` for
/// a division by zero or a nibble with no operation.
pub open spec fn alu_spec(nibble: u8, a: i64, b: i64) -> Option<i64> {
    if nibble == 0x0 {
        Some(a.wrapping_add(b))
    } else if nibble == 0x1 {
        Some(a.wrapping_sub(b))
    } else if nibble == 0x2 {
        Some(a & b)
    } else if nibble == 0x3 {
        Some(a | b)
    } else if nibble == 0x5 {
        Some(a ^ b)
    } else if nibble == 0x6 {
        Some(a.wrapping_shl(b as u32))
    } else if nibble == 0x7 {
        Some((a as u64).wrapping_shr(b as u32) as i64)
    } else if nibble == 0x8 {
        Some(a.wrapping_shr(b as u32))
    } else if nibble == 0x9 {
        Some(a.wrapping_mul(b))
    } else if nibble == 0xA {
        if b == 0 {
            None
        } else {
            Some(
                match a.checked_div(b) {
                    Some(q) => q,
                    None => a,
                },
            )
        }
    } else {
        None
    }
}

/// A loaded value: sign-extended from its width, or the raw bytes.
pub open spec fn loaded(raw: nat, width: nat, sign: bool) -> i64 {
    if sign {
        sext(raw, width) as i64
    } else {
        (raw as u64) as i64
    }
}

/// What an instruction commits, given memory; `None` when it faults.
pub open spec fn commit_spec(op: DecodedOp, m: MemGuard) -> Option<Commit> {
    match op {
        DecodedOp::Nop => Some(Commit::Nothing),
        DecodedOp::Halt => Some(Commit::Halt),
        DecodedOp::Mov { rd, src } => Some(Commit::Reg { rd, value: src }),
        DecodedOp::Not { rd, src } => Some(Commit::Reg { rd, value: !src }),
        DecodedOp::Cmp { a, b, signed } => {
            let (z, n, c, v) = compare_spec(a, b, signed);
            Some(Commit::Flags { z, n, c, v })
        },
        DecodedOp::Alu { rd, nibble, a, b } => match alu_spec(nibble, a, b) {
            Some(value) => Some(Commit::Reg { rd, value }),
            None => None,
        },
        DecodedOp::Branch { .. } => Some(Commit::Nothing),
        DecodedOp::Load { rd, addr, width, sext } => if valid_width(width as int) && in_space(
            addr as int,
            width as int,
        ) {
            Some(
                Commit::Reg {
                    rd,
                    value: loaded(be_val(m.bytes_at(addr as int, width as nat)), width as nat, sext),
                },
            )
        } else {
            None
        },
        DecodedOp::Store { addr, width, .. } => if valid_width(width as int) && in_space(
            addr as int,
            width as int,
        ) {
            Some(Commit::Nothing)
        } else {
            None
        },
        DecodedOp::Trap { .. } => None,
    }
}

/// What executing an instruction does to memory: a store writes, anything
/// else leaves memory as it was.
pub open spec fn mem_effect(op: DecodedOp, m0: MemGuard, m1: MemGuard) -> bool {
    match op {
        DecodedOp::Store { addr, width, value } => written(
            m0,
            m1,
            addr as int,
            width as nat,
            value as nat,
        ) && m1.wf(),
        _ => m1 == m0,
    }
}

/// Compare, as the condition codes see it. Returns (z, n, c, v).
pub fn compare(a: i64, b: i64, signed: bool) -> (r: (bool, bool, bool, bool))
    ensures
        r == compare_spec(a, b, signed),
{
    let ua = a as u64;
    let ub = b as u64;
    let (neg, overflow) = if signed {
        match a.checked_sub(b) {
            Some(d) => (d < 0, false),
            None => (a.wrapping_sub(b) < 0, true),
        }
    } else {
        (ua < ub, false)
    };
    (ua == ub, neg, ua >= ub, overflow)
}

/// The fault message of an ALU operation that has no result: a division by
/// zero, or a nibble with no operation.
pub open spec fn alu_fault_msg(nibble: u8) -> Seq<char> {
    if nibble == 0xA {
        "divide by zero"@
    } else {
        "no ALU operation for nibble "@ + seq!['0', 'x'] + text::zero_pad(text::digits(nibble as nat, 16), 0)
    }
}

/// The fault message of an instruction that faults in execution.
pub open spec fn run_fault_msg(pc: u64, op: DecodedOp) -> Seq<char> {
    match op {
        DecodedOp::Alu { nibble, .. } => alu_fault_msg(nibble),
        DecodedOp::Load { addr, width, .. } => access_fault_msg(addr, width as nat),
        DecodedOp::Store { addr, width, .. } => access_fault_msg(addr, width as nat),
        DecodedOp::Trap { vector } => "trap "@ + seq!['0', 'x'] + text::zero_pad(text::digits(vector as nat, 16), 2)
            + " at pc "@ + seq!['0', 'x'] + text::zero_pad(text::digits(pc as nat, 16), 16)
            + " is not implemented"@,
        _ => seq![],
    }
}

/// Apply an ALU op (the opcode's low nibble) to signed operands.
pub fn alu(nibble: u8, a: i64, b: i64) -> (r: Result<i64>)
    ensures
        match alu_spec(nibble, a, b) {
            Some(v) => r matches Ok(x) && x == v,
            None => r is Err,
        },
        r matches Err(e) ==> e.0@ == alu_fault_msg(nibble),
{
    if nibble == 0x0 {
        Ok(a.wrapping_add(b))
    } else if nibble == 0x1 {
        Ok(a.wrapping_sub(b))
    } else if nibble == 0x2 {
        Ok(a & b)
    } else if nibble == 0x3 {
        Ok(a | b)
    } else if nibble == 0x5 {
        Ok(a ^ b)
    } else if nibble == 0x6 {
        Ok(a.wrapping_shl(b as u32))
    } else if nibble == 0x7 {
        Ok((a as u64).wrapping_shr(b as u32) as i64)
    } else if nibble == 0x8 {
        Ok(a.wrapping_shr(b as u32))
    } else if nibble == 0x9 {
        Ok(a.wrapping_mul(b))
    } else if nibble == 0xA {
        if b == 0 {
            return Err(Msg::new("divide by zero").error());
        }
        Ok(
            match a.checked_div(b) {
                Some(q) => q,
                None => a,
            },
        )
    } else {
        let mut m = Msg::new("no ALU operation for nibble ");
        m.hex(nibble as u64, 0);
        Err(m.error())
    }
}

/// Sign-extend the low `width` bytes of `v` (which fit in them) to a full
/// signed 64-bit value.
pub fn sign_extend(v: u64, width: usize) -> (r: i64)
    requires
        1 <= width <= 8,
        v < pow256(width as nat),
    ensures
        r == sext(v as nat, width as nat),
{
    let m = crate::vea_sim::assembler::lex::pow256_u128(width);
    proof {
        crate::vea_sim::memory::lemma_pow256_le8(width as nat);
        crate::vea_sim::memory::lemma_pow256_step((width - 1) as nat);
        crate::vea_sim::memory::lemma_pow256_pos((width - 1) as nat);
    }
    let half = m / 2;
    if (v as u128) >= half {
        (v as i128 - m as i128) as i64
    } else {
        v as i64
    }
}

/// Carry out one decoded instruction against memory.
pub fn run(pc: u64, op: DecodedOp, mem: &mut MemGuard) -> (r: Result<Commit>)
    requires
        old(mem).wf(),
    ensures
        final(mem).wf(),
        match commit_spec(op, *old(mem)) {
            Some(c) => r matches Ok(x) && x == c,
            None => r is Err,
        },
        r is Ok ==> mem_effect(op, *old(mem), *final(mem)),
        r is Err ==> *final(mem) == *old(mem),
        r matches Err(e) ==> e.0@ == run_fault_msg(pc, op),
{
    match op {
        DecodedOp::Nop => Ok(Commit::Nothing),
        DecodedOp::Halt => Ok(Commit::Halt),
        DecodedOp::Mov { rd, src } => Ok(Commit::Reg { rd, value: src }),
        DecodedOp::Not { rd, src } => Ok(Commit::Reg { rd, value: !src }),
        DecodedOp::Cmp { a, b, signed } => {
            let (z, n, c, v) = compare(a, b, signed);
            Ok(Commit::Flags { z, n, c, v })
        },
        DecodedOp::Alu { rd, nibble, a, b } => {
            let value = alu(nibble, a, b)?;
            Ok(Commit::Reg { rd, value })
        },
        DecodedOp::Branch { .. } => Ok(Commit::Nothing),
        DecodedOp::Load { rd, addr, width, sext } => {
            let raw = mem.read(addr, width)?;
            proof {
                lemma_be_val_bound(mem.bytes_at(addr as int, width as nat));
            }
            let value = if sext {
                sign_extend(raw, width)
            } else {
                raw as i64
            };
            Ok(Commit::Reg { rd, value })
        },
        DecodedOp::Store { addr, width, value } => {
            mem.write(addr, width, value)?;
            Ok(Commit::Nothing)
        },
        DecodedOp::Trap { vector } => {
            let mut m = Msg::new("trap ");
            m.hex(vector, 2);
            m.lit(" at pc ");
            m.hex(pc, 16);
            m.lit(" is not implemented");
            Err(m.error())
        },
    }
}

/// A big-endian value is below `256^len`.
pub proof fn lemma_be_val_bound(s: Seq<u8>)
    ensures
        be_val(s) < pow256(s.len()),
    decreases s.len(),
{
    if s.len() > 0 {
        lemma_be_val_bound(s.drop_last());
        crate::vea_sim::memory::lemma_pow256_step((s.len() - 1) as nat);
        assert(be_val(s) == be_val(s.drop_last()) * 256 + s.last() as nat);
    }
}

} // verus!
verus! {

/// The state after Execute; `None` when the instruction faults.
pub open spec fn execute_spec(s: ProcV, m: MemGuard) -> Option<ProcV> {
    match s.id_ex {
        None => Some(ProcV { ex_wb: None, ..s }),
        Some(l) => match commit_spec(l.op, m) {
            None => None,
            Some(c) => Some(ProcV { id_ex: None, ex_wb: Some(ExWb { pc: l.pc, commit: c }), ..s }),
        },
    }
}

/// What Execute does to memory.
pub open spec fn execute_mem(s: ProcV, m0: MemGuard, m1: MemGuard) -> bool {
    match s.id_ex {
        None => m1 == m0,
        Some(l) => mem_effect(l.op, m0, m1),
    }
}

impl Processor {
    /// EX: do the work Decode set up.
    pub fn execute(&mut self, mem: &mut MemGuard) -> (r: Result<()>)
        requires
            old(mem).wf(),
            crate::vea_sim::nstep::latches_wf(old(self)@),
        ensures
            final(mem).wf(),
            match execute_spec(old(self)@, *old(mem)) {
                Some(s) => r is Ok && final(self)@ == s,
                None => r is Err,
            },
            r is Ok ==> execute_mem(old(self)@, *old(mem), *final(mem)),
            r is Ok ==> crate::vea_sim::nstep::latches_wf(final(self)@),
            r is Err ==> *final(mem) == *old(mem),
            r is Err ==> final(self)@ == (ProcV { id_ex: None, ..old(self)@ }),
            r matches Err(e) ==> (old(self)@.id_ex matches Some(l) && e.0@ == run_fault_msg(l.pc, l.op)),
    {
        let latch = match self.id_ex.take() {
            Some(l) => l,
            None => {
                self.ex_wb = None;
                return Ok(());
            },
        };
        let commit = run(latch.pc, latch.op, mem)?;
        self.ex_wb = Some(ExWb { pc: latch.pc, commit });
        Ok(())
    }
}

} // verus!
