//! The writeback stage: commit what Execute decided.
use crate::vea_sim::nstep::{latches_wf, Commit, ExWb, Processor, ProcV};
use vstd::prelude::*;

verus! {

/// The state after Writeback: the EX/WB latch is applied and emptied and one
/// more instruction has completed; with nothing latched, nothing changes.
pub open spec fn writeback_spec(s: ProcV) -> ProcV {
    match s.ex_wb {
        None => s,
        Some(l) => {
            let s1 = ProcV { ex_wb: None, completed_instrs: (s.completed_instrs + 1) as u64, ..s };
            match l.commit {
                Commit::Nothing => s1,
                Commit::Reg { rd, value } => ProcV { regs: s.regs.update(rd as int, value as u64), ..s1 },
                Commit::Flags { z, n, c, v } => ProcV { z, n, c, v, ..s1 },
                Commit::Halt => ProcV { halted: true, ..s1 },
            }
        },
    }
}

impl Processor {
    /// WB: commit whatever Execute decided.
    pub fn writeback(&mut self)
        requires
            latches_wf(old(self)@),
            old(self).completed_instrs < u64::MAX,
        ensures
            final(self)@ == writeback_spec(old(self)@),
            latches_wf(final(self)@),
    {
        let latch = match self.ex_wb.take() {
            Some(l) => l,
            None => {
                return;
            },
        };
        match latch.commit {
            Commit::Nothing => {},
            Commit::Reg { rd, value } => {
                self.regs[rd] = value as u64;
            },
            Commit::Flags { z, n, c, v } => {
                self.cc.set(z, n, c, v);
            },
            Commit::Halt => {
                self.halted = true;
            },
        }
        self.completed_instrs += 1;
        assert(self@.regs =~= writeback_spec(old(self)@).regs);
    }
}

} // verus!
