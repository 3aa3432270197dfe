//! The decode stage: from a frame's bytes to a `DecodedOp` with its operand
//! values already read. Taken branches redirect Fetch right here.
use crate::vea_sim::assembler::insn::{
    BR_ALWAYS, BR_EQ, BR_GE, BR_GT, BR_IMM, BR_LE, BR_LT, BR_MASK, BR_NE, LS_SEXT,
    OPINFO_FLAG_ALSO_IMMEDIATE,
};
use crate::vea_sim::assembler::encode::{lemma_imm_width_fits, lemma_low_bytes_sext, low_bytes};
use crate::vea_sim::assembler::lex::{imm_width, sext};
use crate::vea_sim::error::{Error, Msg, Result};
use crate::vea_sim::isa::{self, spec_imm_len, MAX_INSN_BYTES, NUM_REGS};
use crate::vea_sim::memory::{be_val, pow256};
use crate::vea_sim::nstep::{latches_wf, op_reg, Commit, DecodedOp, ExWb, IdEx, Processor, ProcV};
use vstd::prelude::*;

verus! {

/// The `len`-byte big-endian immediate at `at`, sign-extended; zero when
/// `len` is zero, `None` when it is wider than eight bytes or runs past the
/// frame.
pub open spec fn imm_at_spec(b: Seq<u8>, at: int, len: nat) -> Option<i64> {
    if len == 0 {
        Some(0)
    } else if len > 8 || at + len > b.len() {
        None
    } else {
        Some(sext(be_val(b.subrange(at, at + len)), len) as i64)
    }
}

/// The decoder reads back every immediate the assembler writes: the
/// shortest sign-extending encoding of a 64-bit value, placed at `at` in a
/// frame, decodes at that width to the value itself.
pub proof fn law_immediate_round_trip(v: i64, b: Seq<u8>, at: int)
    requires
        0 <= at,
        at + imm_width(v as int) <= b.len(),
        b.subrange(at, at + imm_width(v as int)) == low_bytes(v as int, imm_width(v as int)),
    ensures
        imm_at_spec(b, at, imm_width(v as int)) == Some(v),
{
    let w = imm_width(v as int);
    lemma_imm_width_fits(v as int);
    if v != 0 {
        assert(w >= 1);
        lemma_low_bytes_sext(v as int, w);
    }
}

/// The register index at `at`, if it names a real register.
pub open spec fn reg_at_spec(b: Seq<u8>, at: int) -> Option<usize> {
    if (b[at] as int) < NUM_REGS {
        Some(b[at] as usize)
    } else {
        None
    }
}

/// The trailing source operand at `at`: the sign-extended immediate when the
/// opinfo marks one, else the value of the register named there.
pub open spec fn source_spec(b: Seq<u8>, at: int, opinfo: u8, regs: Seq<u64>) -> Option<i64> {
    if opinfo & OPINFO_FLAG_ALSO_IMMEDIATE != 0 {
        imm_at_spec(b, at, spec_imm_len(opinfo, at as u8) as nat)
    } else {
        match reg_at_spec(b, at) {
            Some(r) => Some(regs[r as int] as i64),
            None => None,
        }
    }
}

/// Branch predicates over the Z, N and V flags.
pub open spec fn predicate_spec(pred: u8, z: bool, n: bool, v: bool) -> Option<bool> {
    if pred == BR_ALWAYS {
        Some(true)
    } else if pred == BR_EQ {
        Some(z)
    } else if pred == BR_NE {
        Some(!z)
    } else if pred == BR_LT {
        Some(n != v)
    } else if pred == BR_GE {
        Some(n == v)
    } else if pred == BR_GT {
        Some(!z && n == v)
    } else if pred == BR_LE {
        Some(z || n != v)
    } else {
        None
    }
}

/// A branch or jump target: a register holds an absolute address; an
/// immediate is absolute for `jmp` and an offset from the branch itself
/// otherwise.
pub open spec fn branch_target_spec(pc: u64, b: Seq<u8>, opinfo: u8, absolute: bool, regs: Seq<
    u64,
>) -> Option<u64> {
    if opinfo & BR_IMM == 0 {
        match reg_at_spec(b, 2) {
            Some(r) => Some(regs[r as int]),
            None => None,
        }
    } else {
        match imm_at_spec(b, 2, spec_imm_len(opinfo, 2) as nat) {
            Some(off) => Some(
                if absolute {
                    off as u64
                } else {
                    (pc as i64).wrapping_add(off) as u64
                },
            ),
            None => None,
        }
    }
}

/// Access width of a load or store from its flag nibble.
pub open spec fn ls_width(flags: u8) -> usize {
    let w = (flags / 2) % 4;
    if w == 0 {
        8
    } else if w == 1 {
        1
    } else if w == 2 {
        2
    } else {
        4
    }
}

/// The decoded form of the frame `b` at `pc`, reading registers from `regs`
/// and branching on the flags `z`, `n`, `v`; `None` for an illegal opcode, a
/// register index out of range, an unknown predicate or a bad immediate.
#[verifier::opaque]
pub open spec fn decode_spec(pc: u64, b: Seq<u8>, regs: Seq<u64>, z: bool, n: bool, v: bool) -> Option<
    DecodedOp,
> {
    let opcode = b[0];
    let opinfo = b[1];
    if opcode == 0x00 {
        Some(DecodedOp::Nop)
    } else if opcode == 0xFF {
        Some(DecodedOp::Halt)
    } else if opcode == 0x01 || opcode == 0x14 {
        match (reg_at_spec(b, 2), source_spec(b, 3, opinfo, regs)) {
            (Some(rd), Some(src)) => Some(
                if opcode == 0x01 {
                    DecodedOp::Mov { rd, src }
                } else {
                    DecodedOp::Not { rd, src }
                },
            ),
            _ => None,
        }
    } else if opcode == 0x20 || opcode == 0x21 {
        match (reg_at_spec(b, 2), source_spec(b, 3, opinfo, regs)) {
            (Some(ra), Some(bv)) => Some(
                DecodedOp::Cmp { a: regs[ra as int] as i64, b: bv, signed: opcode == 0x21 },
            ),
            _ => None,
        }
    } else if (0x10 <= opcode <= 0x13) || (0x15 <= opcode <= 0x1A) {
        match (reg_at_spec(b, 2), reg_at_spec(b, 3), source_spec(b, 4, opinfo, regs)) {
            (Some(rd), Some(ra), Some(bv)) => Some(
                DecodedOp::Alu { rd, nibble: opcode % 16, a: regs[ra as int] as i64, b: bv },
            ),
            _ => None,
        }
    } else if opcode == 0x30 {
        match (predicate_spec(opinfo & BR_MASK, z, n, v), branch_target_spec(pc, b, opinfo, false, regs)) {
            (Some(taken), Some(target)) => Some(DecodedOp::Branch { taken, target }),
            _ => None,
        }
    } else if opcode == 0x31 {
        match branch_target_spec(pc, b, opinfo, true, regs) {
            Some(target) => Some(DecodedOp::Branch { taken: true, target }),
            None => None,
        }
    } else if opcode == 0x40 || opcode == 0x41 {
        let flags = opinfo % 16;
        match (reg_at_spec(b, 2), reg_at_spec(b, 3), source_spec(b, 4, opinfo, regs)) {
            (Some(reg), Some(rb), Some(off)) => {
                let addr = (regs[rb as int] as i64).wrapping_add(off) as u64;
                let width = ls_width(flags);
                Some(
                    if opcode == 0x40 {
                        DecodedOp::Load { rd: reg, addr, width, sext: flags & LS_SEXT != 0 }
                    } else {
                        DecodedOp::Store { addr, width, value: regs[reg as int] }
                    },
                )
            },
            _ => None,
        }
    } else if opcode == 0xFE {
        match imm_at_spec(b, 2, spec_imm_len(opinfo, 2) as nat) {
            Some(x) => Some(DecodedOp::Trap { vector: x as u64 }),
            None => None,
        }
    } else {
        None
    }
}

/// The fault message for an immediate that does not fit the frame.
pub open spec fn imm_err(len: nat) -> Seq<char> {
    "immediate of "@ + crate::text::digits(len, 10) + " bytes does not fit the frame"@
}

/// The fault message for a register operand out of range.
pub open spec fn reg_err(pc: u64, r: u8) -> Seq<char> {
    "register operand r"@ + crate::text::digits(r as nat, 10) + " at "@ + seq!['0', 'x']
        + crate::text::zero_pad(crate::text::digits(pc as nat, 16), 16) + " is out of range (0..32)"@
}

/// The fault message of a trailing source operand that does not read.
pub open spec fn source_err(b: Seq<u8>, at: int, opinfo: u8) -> Seq<char> {
    if opinfo & OPINFO_FLAG_ALSO_IMMEDIATE != 0 {
        imm_err(spec_imm_len(opinfo, at as u8) as nat)
    } else {
        reg_err(0, b[at])
    }
}

/// The fault message of a branch or jump target that does not read.
pub open spec fn target_err(pc: u64, b: Seq<u8>, opinfo: u8) -> Seq<char> {
    if opinfo & BR_IMM == 0 {
        reg_err(pc, b[2])
    } else {
        imm_err(spec_imm_len(opinfo, 2) as nat)
    }
}

/// The fault message of a frame that does not decode: the first of its
/// fields, in the order Decode reads them, that does not read, or an
/// illegal opcode.
pub open spec fn decode_err(pc: u64, b: Seq<u8>) -> Seq<char> {
    let opcode = b[0];
    let opinfo = b[1];
    if opcode == 0x01 || opcode == 0x14 || opcode == 0x20 || opcode == 0x21 {
        if reg_at_spec(b, 2) is None {
            reg_err(pc, b[2])
        } else {
            source_err(b, 3, opinfo)
        }
    } else if (0x10 <= opcode <= 0x13) || (0x15 <= opcode <= 0x1A) || opcode == 0x40 || opcode == 0x41 {
        if reg_at_spec(b, 2) is None {
            reg_err(pc, b[2])
        } else if reg_at_spec(b, 3) is None {
            reg_err(pc, b[3])
        } else {
            source_err(b, 4, opinfo)
        }
    } else if opcode == 0x30 {
        if predicate_spec(opinfo & BR_MASK, false, false, false) is None {
            "unknown branch predicate "@ + seq!['0', 'x'] + crate::text::zero_pad(
                crate::text::digits((opinfo & BR_MASK) as nat, 16),
                0,
            )
        } else {
            target_err(pc, b, opinfo)
        }
    } else if opcode == 0x31 {
        target_err(pc, b, opinfo)
    } else if opcode == 0xFE {
        imm_err(spec_imm_len(opinfo, 2) as nat)
    } else {
        "illegal opcode "@ + seq!['0', 'x'] + crate::text::zero_pad(crate::text::digits(opcode as nat, 16), 2)
            + " reached decode at "@ + seq!['0', 'x'] + crate::text::zero_pad(crate::text::digits(pc as nat, 16), 16)
    }
}

/// Sign-extend the low `len` big-endian bytes at `bytes[at..]` to a full
/// `i64`.
pub fn imm_at(bytes: &[u8], at: usize, len: u8) -> (r: Result<i64>)
    requires
        at <= bytes@.len(),
    ensures
        match imm_at_spec(bytes@, at as int, len as nat) {
            Some(x) => r matches Ok(y) && y == x,
            None => r is Err,
        },
        r matches Err(e) ==> e.0@ == imm_err(len as nat),
{
    if len == 0 {
        return Ok(0);
    }
    if len > 8 || len as usize > bytes.len() - at {
        let mut m = Msg::new("immediate of ");
        m.dec(len as u64);
        m.lit(" bytes does not fit the frame");
        return Err(m.error());
    }
    let n = len as usize;
    let blen = bytes.len();
    let ghost s = bytes@.subrange(at as int, at + n);
    let mut bits: u64 = 0;
    let mut i: usize = 0;
    while i < n
        invariant
            1 <= n <= 8,
            blen == bytes@.len(),
            at + n <= bytes@.len(),
            s == bytes@.subrange(at as int, at + n),
            i <= n,
            bits == be_val(s.take(i as int)),
            bits < pow256(i as nat),
        decreases n - i,
    {
        assert(at + i < bytes@.len());
        let byte = bytes[at + i];
        proof {
            assert(s.take(i + 1).drop_last() == s.take(i as int));
            assert(s.take(i + 1).last() == bytes@[at + i]);
            crate::vea_sim::memory::lemma_pow256_step(i as nat);
            crate::vea_sim::memory::lemma_pow256_le8((i + 1) as nat);
            crate::vea_sim::memory::lemma_pow256_mono((i + 1) as nat, 8);
            assert(bits * 256 + bytes@[at + i] < pow256((i + 1) as nat)) by (nonlinear_arith)
                requires
                    bits < pow256(i as nat),
                    bytes@[at + i] < 256,
                    pow256((i + 1) as nat) == 256 * pow256(i as nat),
            ;
            assert(pow256((i + 1) as nat) <= 0x1_0000_0000_0000_0000);
        }
        assert(bits * 256 + byte < 0x1_0000_0000_0000_0000);
        bits = bits * 256 + byte as u64;
        i += 1;
    }
    assert(s.take(n as int) == s);
    Ok(crate::vea_sim::nstep::execute::sign_extend(bits, n))
}

fn reg_at(pc: u64, bytes: &[u8], at: usize) -> (r: Result<usize>)
    requires
        at < bytes@.len(),
    ensures
        match reg_at_spec(bytes@, at as int) {
            Some(x) => r matches Ok(y) && y == x,
            None => r is Err,
        },
        r matches Err(e) ==> e.0@ == reg_err(pc, bytes@[at as int]),
{
    let r = bytes[at] as usize;
    if r >= NUM_REGS {
        let mut m = Msg::new("register operand r");
        m.dec(r as u64);
        m.lit(" at ");
        m.hex(pc, 16);
        m.lit(" is out of range (0..32)");
        return Err(m.error());
    }
    Ok(r)
}

fn source(bytes: &[u8], at: usize, opinfo: u8, regs: &[u64; NUM_REGS]) -> (r: Result<i64>)
    requires
        at < bytes@.len(),
        at <= 4,
    ensures
        match source_spec(bytes@, at as int, opinfo, regs@) {
            Some(x) => r matches Ok(y) && y == x,
            None => r is Err,
        },
        r matches Err(e) ==> e.0@ == source_err(bytes@, at as int, opinfo),
{
    if opinfo & OPINFO_FLAG_ALSO_IMMEDIATE != 0 {
        let n = isa::imm_len(opinfo, at as u8);
        imm_at(bytes, at, n)
    } else {
        let r = reg_at(0, bytes, at)?;
        Ok(regs[r] as i64)
    }
}

/// Branch predicates over the Z, N and V flags.
pub fn predicate(pred: u8, z: bool, n: bool, v: bool) -> (r: Result<bool>)
    ensures
        match predicate_spec(pred, z, n, v) {
            Some(x) => r matches Ok(y) && y == x,
            None => r is Err,
        },
        r matches Err(e) ==> e.0@ == "unknown branch predicate "@ + seq!['0', 'x'] + crate::text::zero_pad(
            crate::text::digits(pred as nat, 16),
            0,
        ),
{
    if pred == BR_ALWAYS {
        Ok(true)
    } else if pred == BR_EQ {
        Ok(z)
    } else if pred == BR_NE {
        Ok(!z)
    } else if pred == BR_LT {
        Ok(n != v)
    } else if pred == BR_GE {
        Ok(n == v)
    } else if pred == BR_GT {
        Ok(!z && n == v)
    } else if pred == BR_LE {
        Ok(z || n != v)
    } else {
        let mut m = Msg::new("unknown branch predicate ");
        m.hex(pred as u64, 0);
        Err(m.error())
    }
}

fn branch_target(pc: u64, bytes: &[u8; MAX_INSN_BYTES], opinfo: u8, absolute: bool, regs: &[u64; NUM_REGS]) -> (r: Result<u64>)
    ensures
        match branch_target_spec(pc, bytes@, opinfo, absolute, regs@) {
            Some(x) => r matches Ok(y) && y == x,
            None => r is Err,
        },
        r matches Err(e) ==> e.0@ == target_err(pc, bytes@, opinfo),
{
    if opinfo & BR_IMM == 0 {
        let r = reg_at(pc, bytes, 2)?;
        Ok(regs[r])
    } else {
        let off = imm_at(bytes, 2, isa::imm_len(opinfo, 2))?;
        Ok(
            if absolute {
                off as u64
            } else {
                (pc as i64).wrapping_add(off) as u64
            },
        )
    }
}

/// Decode the frame at `pc` against a register file and the Z, N, V flags.
pub fn decode_op(pc: u64, bytes: &[u8; MAX_INSN_BYTES], regs: &[u64; NUM_REGS], z: bool, n: bool, v: bool) -> (r: Result<DecodedOp>)
    ensures
        match decode_spec(pc, bytes@, regs@, z, n, v) {
            Some(op) => r matches Ok(o) && o == op,
            None => r is Err,
        },
        r matches Ok(o) ==> (op_reg(o) matches Some(x) ==> x < NUM_REGS),
        r matches Err(e) ==> e.0@ == decode_err(pc, bytes@),
{
    reveal(decode_spec);
    let opcode = bytes[0];
    let opinfo = bytes[1];
    if opcode == 0x00 {
        Ok(DecodedOp::Nop)
    } else if opcode == 0xFF {
        Ok(DecodedOp::Halt)
    } else if opcode == 0x01 || opcode == 0x14 {
        let rd = reg_at(pc, bytes, 2)?;
        let src = source(bytes, 3, opinfo, regs)?;
        Ok(
            if opcode == 0x01 {
                DecodedOp::Mov { rd, src }
            } else {
                DecodedOp::Not { rd, src }
            },
        )
    } else if opcode == 0x20 || opcode == 0x21 {
        let ra = reg_at(pc, bytes, 2)?;
        let b = source(bytes, 3, opinfo, regs)?;
        Ok(DecodedOp::Cmp { a: regs[ra] as i64, b, signed: opcode == 0x21 })
    } else if (0x10 <= opcode && opcode <= 0x13) || (0x15 <= opcode && opcode <= 0x1A) {
        let rd = reg_at(pc, bytes, 2)?;
        let ra = reg_at(pc, bytes, 3)?;
        let b = source(bytes, 4, opinfo, regs)?;
        Ok(DecodedOp::Alu { rd, nibble: opcode % 16, a: regs[ra] as i64, b })
    } else if opcode == 0x30 {
        let taken = predicate(opinfo & BR_MASK, z, n, v)?;
        let target = branch_target(pc, bytes, opinfo, false, regs)?;
        Ok(DecodedOp::Branch { taken, target })
    } else if opcode == 0x31 {
        let target = branch_target(pc, bytes, opinfo, true, regs)?;
        Ok(DecodedOp::Branch { taken: true, target })
    } else if opcode == 0x40 || opcode == 0x41 {
        let flags = opinfo % 16;
        let reg = reg_at(pc, bytes, 2)?;
        let rb = reg_at(pc, bytes, 3)?;
        let off = source(bytes, 4, opinfo, regs)?;
        let addr = (regs[rb] as i64).wrapping_add(off) as u64;
        let w = (flags / 2) % 4;
        let width: usize = if w == 0 {
            8
        } else if w == 1 {
            1
        } else if w == 2 {
            2
        } else {
            4
        };
        Ok(
            if opcode == 0x40 {
                DecodedOp::Load { rd: reg, addr, width, sext: flags & LS_SEXT != 0 }
            } else {
                DecodedOp::Store { addr, width, value: regs[reg] }
            },
        )
    } else if opcode == 0xFE {
        let x = imm_at(bytes, 2, isa::imm_len(opinfo, 2))?;
        Ok(DecodedOp::Trap { vector: x as u64 })
    } else {
        let mut m = Msg::new("illegal opcode ");
        m.hex(opcode as u64, 2);
        m.lit(" reached decode at ");
        m.hex(pc, 16);
        Err(m.error())
    }
}

} // verus!
verus! {

/// Register values as Decode sees them: a result waiting in EX/WB is
/// forwarded over the register file.
pub open spec fn fwd_regs(s: ProcV) -> Seq<u64> {
    match s.ex_wb {
        Some(l) => match l.commit {
            Commit::Reg { rd, value } => s.regs.update(rd as int, value as u64),
            _ => s.regs,
        },
        None => s.regs,
    }
}

/// The Z, N and V flags as Decode sees them, forwarded from EX/WB likewise.
pub open spec fn fwd_flags(s: ProcV) -> (bool, bool, bool) {
    match s.ex_wb {
        Some(l) => match l.commit {
            Commit::Flags { z, n, v, .. } => (z, n, v),
            _ => (s.z, s.n, s.v),
        },
        None => (s.z, s.n, s.v),
    }
}

/// The state after Decode; `None` when the frame does not decode. A taken
/// branch points Fetch at its target; a halt stops Fetch.
pub open spec fn decode_stage_spec(s: ProcV) -> Option<ProcV> {
    match s.if_id {
        None => Some(ProcV { id_ex: None, ..s }),
        Some((pc, b)) => {
            let (z, n, v) = fwd_flags(s);
            match decode_spec(pc, b, fwd_regs(s), z, n, v) {
                None => None,
                Some(op) => {
                    let s1 = ProcV { if_id: None, id_ex: Some(IdEx { pc, op }), ..s };
                    let s2 = match op {
                        DecodedOp::Branch { taken, target } => if taken {
                            ProcV { pc: target, ..s1 }
                        } else {
                            s1
                        },
                        _ => s1,
                    };
                    Some(
                        if op is Halt {
                            ProcV { halt_pending: true, ..s2 }
                        } else {
                            s2
                        },
                    )
                },
            }
        },
    }
}

impl Processor {
    /// ID: decode the frame in IF/ID into ID/EX, reading operands (with
    /// forwarding) and resolving branches.
    pub fn decode(&mut self) -> (r: Result<()>)
        requires
            latches_wf(old(self)@),
        ensures
            match decode_stage_spec(old(self)@) {
                Some(s) => r is Ok && final(self)@ == s,
                None => r is Err,
            },
            r is Ok ==> latches_wf(final(self)@),
            r is Err ==> final(self)@ == (ProcV { if_id: None, ..old(self)@ }),
            r matches Err(e) ==> old(self)@.if_id matches Some((pc, b)) && e.0@ == decode_err(pc, b),
    {
        let frame = match self.if_id.take() {
            Some(f) => f,
            None => {
                self.id_ex = None;
                return Ok(());
            },
        };
        let mut regs = self.regs;
        let mut z = self.cc.zero();
        let mut n = self.cc.neg();
        let mut v = self.cc.overflow();
        match self.ex_wb {
            Some(l) => match l.commit {
                Commit::Reg { rd, value } => {
                    regs[rd] = value as u64;
                },
                Commit::Flags { z: fz, n: fnn, v: fv, .. } => {
                    z = fz;
                    n = fnn;
                    v = fv;
                },
                _ => {},
            },
            None => {},
        }
        assert(regs@ =~= fwd_regs(old(self)@));
        let op = match decode_op(frame.pc, &frame.bytes, &regs, z, n, v) {
            Ok(op) => op,
            Err(e) => return Err(e),
        };
        match op {
            DecodedOp::Branch { taken, target } => {
                if taken {
                    self.redirect_fetch(target);
                }
            },
            _ => {},
        }
        if matches!(op, DecodedOp::Halt) {
            self.halt_pending = true;
        }
        self.id_ex = Some(IdEx { pc: frame.pc, op });
        Ok(())
    }
}

} // verus!
