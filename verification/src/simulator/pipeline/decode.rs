//! ID: interpret the raw frame in the IF/ID latch against the instruction
//! table.
use crate::assembler::isa::format::{Form, shape_spec};
use crate::assembler::isa::framing;
use crate::assembler::isa::opcodes::{self, InstrDef, find_opcode, instructions_spec, row_ok};
use crate::simulator::pipeline::fetch::IfIdLatch;
use crate::simulator::processor::Trap;
use crate::simulator::memory::zeros;
use crate::vea_sim::memory::{be_val, pow256, lemma_pow256_step, lemma_pow256_le8};
use crate::vea_sim::nstep::execute::lemma_be_val_bound;
use vstd::prelude::*;

verus! {

/// A memory instruction's direction. The address is not known until EX
/// computes it.
#[derive(Debug, Clone, Copy, PartialEq, Eq)]
pub enum MemOp {
    Load,
    Store,
}

/// ID/EX latch. `rd`/`rs1`/`rs2` are the write-port and two read-port
/// register indices (`None` = that port is not driven). The immediate is
/// the raw 8-byte window after the registers; EX masks it to `imm_width`.
#[derive(Debug, Clone, Copy, PartialEq, Eq)]
pub struct IdExLatch {
    pub valid: bool,
    pub pc: u64,
    pub instr: Option<InstrDef>,
    pub rd: Option<u8>,
    pub rs1: Option<u8>,
    pub rs2: Option<u8>,
    pub imm_raw: u64,
    pub imm_width: u8,
    pub mem_op: Option<MemOp>,
}

/// The empty latch: a bubble.
pub open spec fn bubble() -> IdExLatch {
    IdExLatch {
        valid: false,
        pc: 0,
        instr: None,
        rd: None,
        rs1: None,
        rs2: None,
        imm_raw: 0,
        imm_width: 0,
        mem_op: None,
    }
}

impl Default for IdExLatch {
    fn default() -> (l: IdExLatch)
        ensures
            l == bubble(),
    {
        IdExLatch {
            valid: false,
            pc: 0,
            instr: None,
            rd: None,
            rs1: None,
            rs2: None,
            imm_raw: 0,
            imm_width: 0,
            mem_op: None,
        }
    }
}

/// The register named by payload slot `k`.
pub open spec fn slot_reg(b: Seq<u8>, k: int) -> u8 {
    b[2 + k] & framing::REG_INDEX_MASK
}

/// The registers read by an instruction with `rc` register slots: every slot
/// but the written one, in order.
pub open spec fn read_regs(b: Seq<u8>, rc: nat, writes: Option<u8>) -> Seq<u8>
    decreases rc,
{
    if rc == 0 {
        Seq::empty()
    } else {
        let prev = read_regs(b, (rc - 1) as nat, writes);
        if writes == Some((rc - 1) as u8) {
            prev
        } else {
            prev.push(slot_reg(b, rc - 1))
        }
    }
}

/// Immediate widths a frame can carry.
pub open spec fn imm_width_ok(w: int) -> bool {
    w == 0 || w == 1 || w == 2 || w == 4 || w == 8
}

/// Decoding one IF/ID latch: a bubble stays a bubble; an (opcode, flags)
/// pair missing from the table is illegal; a PLEN that does not fit the
/// form's registers and a legal immediate width is malformed.
pub open spec fn decode_spec(l: IfIdLatch) -> Result<IdExLatch, Trap> {
    let b = l.bytes@;
    if !l.valid {
        Ok(bubble())
    } else {
        match find_opcode(instructions_spec(), b[0], b[1] % 16, 0) {
            None => Err(Trap::IllegalInstruction { pc: l.pc }),
            Some(d) => {
                let plen = b[1] / 16;
                let rc = shape_spec(d.form).0;
                let w = plen - rc;
                if plen < rc {
                    Err(Trap::MalformedInstruction { pc: l.pc })
                } else if (w > 0) != shape_spec(d.form).1 || !imm_width_ok(w) {
                    Err(Trap::MalformedInstruction { pc: l.pc })
                } else {
                    let reads = read_regs(b, rc as nat, d.writes);
                    let rd = match d.writes {
                        Some(k) => Some(slot_reg(b, k as int)),
                        None => None,
                    };
                    Ok(
                        IdExLatch {
                            valid: true,
                            pc: l.pc,
                            instr: Some(d),
                            rd,
                            rs1: if reads.len() > 0 {
                                Some(reads[0])
                            } else {
                                None
                            },
                            rs2: if reads.len() > 1 {
                                Some(reads[1])
                            } else {
                                None
                            },
                            imm_raw: be_val(b.subrange(2 + rc, 2 + rc + 8)) as u64,
                            imm_width: w as u8,
                            mem_op: if d.form == Form::RMem {
                                Some(
                                    if rd is Some {
                                        MemOp::Load
                                    } else {
                                        MemOp::Store
                                    },
                                )
                            } else {
                                None
                            },
                        },
                    )
                }
            },
        }
    }
}

/// Appending zero bytes scales a big-endian value by 256 per byte.
proof fn lemma_be_val_zeros(s: Seq<u8>, k: nat)
    ensures
        be_val(s + zeros(k)) == be_val(s) * pow256(k),
    decreases k,
{
    if k == 0 {
        assert(s + zeros(0) =~= s);
        assert(pow256(0) == 1);
    } else {
        lemma_be_val_zeros(s, (k - 1) as nat);
        let t = s + zeros(k);
        assert(t.drop_last() =~= s + zeros((k - 1) as nat));
        assert(t.last() == 0);
        lemma_pow256_step((k - 1) as nat);
        assert(be_val(t) == be_val(t.drop_last()) * 256 + t.last() as nat);
        assert(be_val(s) * pow256((k - 1) as nat) * 256 == be_val(s) * (256 * pow256((k - 1) as nat))) by (nonlinear_arith);
    }
}

/// Decoding reads back what the assembler's framing writes. For a row of the
/// instruction table that its (opcode, flags) pair finds, registers for each
/// of its slots and an immediate of a legal width exactly when its form
/// carries one, the frame (zero-padded to the latch) decodes to that row,
/// with the written register on the write port and the immediate's bytes at
/// the top of the raw window.
pub proof fn law_decode_reads_frame(d: InstrDef, regs: Seq<u8>, imm: Seq<u8>, l: IfIdLatch)
    requires
        find_opcode(instructions_spec(), d.opcode, d.flags, 0) == Some(d),
        row_ok(d),
        regs.len() == shape_spec(d.form).0,
        (imm.len() > 0) == shape_spec(d.form).1,
        framing::frame_spec(d.opcode, d.flags, regs, imm) is Some,
        l.valid,
        l.bytes@ == framing::frame_spec(d.opcode, d.flags, regs, imm).unwrap() + zeros(
            (17 - 2 - regs.len() - imm.len()) as nat,
        ),
    ensures
        decode_spec(l) matches Ok(x) && {
            &&& x.valid && x.pc == l.pc
            &&& x.instr == Some(d)
            &&& x.imm_width == imm.len()
            &&& x.rd == match d.writes {
                Some(w) => Some((regs[w as int] % 32) as u8),
                None => None,
            }
            &&& x.imm_raw == be_val(imm) * pow256((8 - imm.len()) as nat)
        },
{
    let b = l.bytes@;
    let rc = regs.len();
    let il = imm.len();
    let f = framing::frame_spec(d.opcode, d.flags, regs, imm).unwrap();
    assert(b[0] == d.opcode);
    assert(b[1] == ((rc + il) * 16 + d.flags) as u8);
    assert(b[1] / 16 == rc + il && b[1] % 16 == d.flags);
    match d.writes {
        Some(w) => {
            assert(w == 0 && rc >= 1);
            let r = regs[0];
            assert(b[2] == (r % 32) as u8);
            assert(((r % 32) as u8) & 0x1F == (r % 32) as u8) by (bit_vector);
        },
        None => {},
    }
    let window = b.subrange(2 + rc as int, 2 + rc as int + 8);
    assert(window =~= imm + zeros((8 - il) as nat));
    lemma_be_val_zeros(imm, (8 - il) as nat);
    lemma_be_val_bound(window);
    lemma_pow256_le8(8);
}

/// Decode one IF/ID latch into an ID/EX latch.
pub fn decode(latch: &IfIdLatch) -> (r: Result<IdExLatch, Trap>)
    ensures
        r == decode_spec(*latch),
{
    if !latch.valid {
        return Ok(IdExLatch::default());
    }
    let ghost b = latch.bytes@;
    let opcode = latch.bytes[0];
    let (plen, flags) = framing::unpack_len_flags(latch.bytes[1]);
    let instr = match opcodes::by_opcode(opcode, flags) {
        Some(d) => d,
        None => {
            return Err(Trap::IllegalInstruction { pc: latch.pc });
        },
    };
    let reg_count = instr.form.reg_count() as usize;
    if (plen as usize) < reg_count {
        return Err(Trap::MalformedInstruction { pc: latch.pc });
    }
    let imm_width = plen as usize - reg_count;
    if (imm_width > 0) != instr.form.has_imm() || !(imm_width == 0 || imm_width == 1 || imm_width == 2
        || imm_width == 4 || imm_width == 8) {
        return Err(Trap::MalformedInstruction { pc: latch.pc });
    }
    // The register slots, one byte each after the header; the written one
    // drives the write port, the others the read ports in order.
    let mut reads: [Option<u8>; 2] = [None, None];
    let mut next_read: usize = 0;
    let mut i: usize = 0;
    while i < reg_count
        invariant
            reg_count == shape_spec(instr.form).0,
            reg_count <= 3,
            row_ok(instr),
            i <= reg_count,
            b == latch.bytes@,
            next_read == read_regs(b, i as nat, instr.writes).len(),
            next_read <= 2,
            next_read <= i,
            instr.writes is Some && i > 0 ==> next_read < i,
            forall|k: int| 0 <= k < next_read ==> reads@[k] == Some(#[trigger] read_regs(b, i as nat, instr.writes)[k]),
            forall|k: int| next_read <= k < 2 ==> #[trigger] reads@[k] is None,
        decreases reg_count - i,
    {
        let reg = latch.bytes[2 + i] & framing::REG_INDEX_MASK;
        let written = match instr.writes {
            Some(w) => w as usize == i,
            None => false,
        };
        if written {
            i += 1;
            continue;
        }
        reads[next_read] = Some(reg);
        next_read += 1;
        i += 1;
    }
    let rd = match instr.writes {
        Some(w) => Some(latch.bytes[2 + w as usize] & framing::REG_INDEX_MASK),
        None => None,
    };
    // The immediate window: always the 8 bytes after the registers, whatever
    // the real width; with at most 3 registers it stays inside the latch.
    let start = 2 + reg_count;
    let mut imm: u64 = 0;
    let mut j: usize = 0;
    while j < 8
        invariant
            start <= 5,
            j <= 8,
            b == latch.bytes@,
            b.len() == 17,
            imm == be_val(b.subrange(start as int, start + j)),
            imm < pow256(j as nat),
        decreases 8 - j,
    {
        let byte = latch.bytes[start + j];
        proof {
            assert(b.subrange(start as int, start + j + 1).drop_last() =~= b.subrange(start as int, start + j));
            lemma_pow256_step(j as nat);
            lemma_pow256_le8(j as nat + 1);
            assert(imm * 256 + byte < pow256(j as nat + 1)) by (nonlinear_arith)
                requires
                    imm < pow256(j as nat),
                    byte < 256,
                    pow256(j as nat + 1) == 256 * pow256(j as nat),
            ;
        }
        imm = imm * 256 + byte as u64;
        j += 1;
    }
    let mem_op = if matches!(instr.form, Form::RMem) {
        Some(
            if rd.is_some() {
                MemOp::Load
            } else {
                MemOp::Store
            },
        )
    } else {
        None
    };
    Ok(
        IdExLatch {
            valid: true,
            pc: latch.pc,
            instr: Some(instr),
            rd,
            rs1: reads[0],
            rs2: reads[1],
            imm_raw: imm,
            imm_width: imm_width as u8,
            mem_op,
        },
    )
}

} // verus!
