//! The fetch stage: pull the frame at `pc` into the IF/ID latch and step
//! `pc` past it.
use crate::vea_sim::error::{Error, Msg, Result};
use crate::vea_sim::isa::{self, spec_align_up, ALIGNMENT, MAX_INSN_BYTES};
use crate::vea_sim::memory::MemGuard;
use crate::vea_sim::nstep::{frame_len, frame_len_spec, latches_wf, IfId, Processor, ProcV};
use vstd::prelude::*;

verus! {

/// The frame Fetch reads at `pc`: the next `MAX_INSN_BYTES` bytes, wrapping
/// at the top of the address space (unmapped bytes read as zero).
pub open spec fn frame_at(m: MemGuard, pc: u64) -> Seq<u8> {
    Seq::new(MAX_INSN_BYTES as nat, |i: int| m.byte((pc + i) % 0x1_0000_0000_0000_0000))
}

/// The fault message for an instruction fetch at a misaligned `pc`.
pub open spec fn misaligned_fetch_msg(pc: u64) -> Seq<char> {
    "instruction fetch at "@ + seq!['0', 'x'] + crate::text::zero_pad(crate::text::digits(pc as nat, 16), 16)
        + " is not aligned to 4 bytes"@
}

/// The fault message of Fetch at the state `s` over memory `m` (when it
/// faults): a misaligned pc, an unmapped pc, a frame shorter than two bytes,
/// or a frame that runs past the top of the address space.
pub open spec fn fetch_fault_msg(s: ProcV, m: MemGuard) -> Seq<char> {
    if s.pc % ALIGNMENT != 0 {
        misaligned_fetch_msg(s.pc)
    } else if !m.mapped(s.pc as int) {
        "instruction fetch at unmapped address "@ + seq!['0', 'x'] + crate::text::zero_pad(
            crate::text::digits(s.pc as nat, 16),
            16,
        )
    } else if frame_len_spec(frame_at(m, s.pc)[1]) is None {
        crate::vea_sim::nstep::frame_len_msg(frame_at(m, s.pc))
    } else {
        "instruction fetch at "@ + seq!['0', 'x'] + crate::text::zero_pad(crate::text::digits(s.pc as nat, 16), 16)
            + " runs past the address space"@
    }
}

/// The state after Fetch; `None` when it faults: the pc is not aligned, its
/// byte is unmapped, the frame is shorter than two bytes, or the next pc
/// would pass the top of the address space. After a halt was decoded, Fetch
/// only empties the IF/ID latch.
pub open spec fn fetch_spec(s: ProcV, m: MemGuard) -> Option<ProcV> {
    if s.halt_pending {
        Some(ProcV { if_id: None, ..s })
    } else if s.pc % ALIGNMENT != 0 || !m.mapped(s.pc as int) {
        None
    } else {
        let b = frame_at(m, s.pc);
        match frame_len_spec(b[1]) {
            None => None,
            Some(len) => if s.pc + len + ALIGNMENT > u64::MAX {
                None
            } else {
                Some(
                    ProcV {
                        pc: spec_align_up(s.pc + len, ALIGNMENT as int) as u64,
                        if_id: Some((s.pc, b)),
                        ..s
                    },
                )
            },
        }
    }
}

/// Fetch keeps the program counter on the alignment grid: it faults at a
/// misaligned pc, and otherwise moves the pc to the next aligned frame.
pub proof fn law_fetch_alignment(s: ProcV, m: MemGuard)
    ensures
        !s.halt_pending && s.pc % ALIGNMENT != 0 ==> fetch_spec(s, m) is None,
        fetch_spec(s, m) matches Some(s1) ==> (s1.pc % ALIGNMENT == 0 || s.halt_pending),
{
    if !s.halt_pending && fetch_spec(s, m) is Some {
        let b = frame_at(m, s.pc);
        let len = frame_len_spec(b[1]).unwrap();
        crate::vea_sim::isa::lemma_align_up(s.pc + len, ALIGNMENT as int);
    }
}

impl Processor {
    /// IF: pull the frame at `pc` straight out of memory into the IF/ID latch
    /// and step `pc` past it.
    pub fn fetch(&mut self, mem: &MemGuard) -> (r: Result<()>)
        requires
            mem.wf(),
            latches_wf(old(self)@),
        ensures
            match fetch_spec(old(self)@, *mem) {
                Some(s) => r is Ok && final(self)@ == s,
                None => r is Err,
            },
            !old(self).halt_pending && old(self).pc % ALIGNMENT != 0 ==> (r matches Err(e) && e.0@
                == misaligned_fetch_msg(old(self).pc)),
            r is Err ==> final(self)@ == (ProcV { if_id: None, ..old(self)@ }),
            r matches Err(e) ==> e.0@ == fetch_fault_msg(old(self)@, *mem),
            latches_wf(final(self)@),
    {
        if self.halt_pending {
            self.if_id = None;
            return Ok(());
        }
        let pc = self.pc;
        if pc % ALIGNMENT != 0 {
            self.if_id = None;
            let mut m = Msg::new("instruction fetch at ");
            m.hex(pc, 16);
            m.lit(" is not aligned to 4 bytes");
            return Err(m.error());
        }
        if !mem.is_mapped(pc) {
            self.if_id = None;
            let mut m = Msg::new("instruction fetch at unmapped address ");
            m.hex(pc, 16);
            return Err(m.error());
        }
        let mut bytes = [0u8; MAX_INSN_BYTES];
        let mut i: usize = 0;
        while i < MAX_INSN_BYTES
            invariant
                mem.wf(),
                i <= MAX_INSN_BYTES,
                forall|j: int| 0 <= j < i ==> #[trigger] bytes@[j] == frame_at(*mem, pc)[j],
            decreases MAX_INSN_BYTES - i,
        {
            let a = pc.wrapping_add(i as u64);
            let b = if mem.is_mapped(a) {
                match mem.read(a, 1) {
                    Ok(v) => v as u8,
                    Err(_) => 0,
                }
            } else {
                0
            };
            proof {
                assert(a == (pc + i) % 0x1_0000_0000_0000_0000);
                crate::vea_sim::memory::lemma_be_val_one(mem.bytes_at(a as int, 1));
                assert(mem.bytes_at(a as int, 1)[0] == mem.byte(a as int));
            }
            bytes[i] = b;
            i += 1;
        }
        assert(bytes@ =~= frame_at(*mem, pc));
        let len = match frame_len(&bytes) {
            Ok(l) => l,
            Err(e) => {
                self.if_id = None;
                return Err(e);
            },
        };
        if pc > u64::MAX - len - ALIGNMENT {
            self.if_id = None;
            let mut m = Msg::new("instruction fetch at ");
            m.hex(pc, 16);
            m.lit(" runs past the address space");
            return Err(m.error());
        }
        self.pc = isa::align_up(pc + len, ALIGNMENT);
        self.if_id = Some(IfId { pc, bytes });
        Ok(())
    }

    /// Point Fetch at `target` and drop everything speculative behind it.
    pub fn redirect_fetch(&mut self, target: u64)
        ensures
            final(self)@ == (ProcV { pc: target, if_id: None, ..old(self)@ }),
    {
        self.pc = target;
        self.if_id = None;
    }
}

} // verus!
