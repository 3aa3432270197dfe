//! The instruction-level simulator: one whole instruction per step, no
//! latches and no delays. It decodes and executes exactly as the pipelined
//! simulator does, so the two agree on every program.
use crate::vea_sim::error::{Error, Msg, Result};
use crate::vea_sim::isa::{self, spec_align_up, ConditionCodes, ALIGNMENT, MAX_INSN_BYTES, NUM_REGS};
use crate::vea_sim::memory::MemGuard;
use crate::vea_sim::nstep::decode::{decode_op, decode_spec};
use crate::vea_sim::nstep::execute::{commit_spec, mem_effect, run, run_fault_msg};
use crate::vea_sim::nstep::fetch::{frame_at, misaligned_fetch_msg};
use crate::vea_sim::nstep::{frame_len, frame_len_msg, frame_len_spec, op_reg, Commit, DecodedOp};
use crate::vea_sim::shared::{Flags, Shared, Snapshot};
use vstd::prelude::*;

verus! {

/// The processor.
pub struct Processor {
    pub pc: u64,
    pub completed_instrs: u64,
    pub halted: bool,
    pub regs: [u64; NUM_REGS],
    pub cc: ConditionCodes,
}

/// The processor's state in spec form.
pub struct OneV {
    pub pc: u64,
    pub completed_instrs: u64,
    pub halted: bool,
    pub regs: Seq<u64>,
    pub z: bool,
    pub n: bool,
    pub c: bool,
    pub v: bool,
}

impl View for Processor {
    type V = OneV;

    open spec fn view(&self) -> OneV {
        OneV {
            pc: self.pc,
            completed_instrs: self.completed_instrs,
            halted: self.halted,
            regs: self.regs@,
            z: self.cc.spec_zero(),
            n: self.cc.spec_neg(),
            c: self.cc.spec_carry(),
            v: self.cc.spec_overflow(),
        }
    }
}

/// The state after a commit is applied.
pub open spec fn apply(s: OneV, c: Commit) -> OneV {
    match c {
        Commit::Nothing => s,
        Commit::Reg { rd, value } => OneV { regs: s.regs.update(rd as int, value as u64), ..s },
        Commit::Flags { z, n, c, v } => OneV { z, n, c, v, ..s },
        Commit::Halt => OneV { halted: true, ..s },
    }
}

/// Bytes an instruction takes: a nop or a halt is two bytes whatever its
/// opinfo byte says; any other frame is as long as its opinfo byte says
/// (`None` below two).
pub open spec fn step_len(b: Seq<u8>) -> Option<nat> {
    if b[0] == 0x00 || b[0] == 0xFF {
        Some(2)
    } else {
        frame_len_spec(b[1])
    }
}

/// One instruction. `m0` is memory before it, `m1` after it. `None` when
/// the machine has halted or the step faults: a misaligned pc, a frame
/// (other than a nop or a halt) shorter than two bytes, a next pc past the
/// top of the address space, a frame that does not decode, or an
/// instruction that faults in execution. A taken branch moves the pc to its
/// target; anything else moves it past the frame, rounded up to the
/// alignment.
pub open spec fn step_spec(s: OneV, m0: MemGuard) -> Option<OneV> {
    if s.halted || s.pc % ALIGNMENT != 0 {
        None
    } else {
        let b = frame_at(m0, s.pc);
        match step_len(b) {
            None => None,
            Some(len) => if s.pc + len + ALIGNMENT > u64::MAX {
                None
            } else {
                let next = spec_align_up(s.pc + len, ALIGNMENT as int) as u64;
                match decode_spec(s.pc, b, s.regs, s.z, s.n, s.v) {
                    None => None,
                    Some(op) => {
                        let done = (s.completed_instrs + 1) as u64;
                        match op {
                            DecodedOp::Branch { taken, target } => Some(
                                OneV {
                                    pc: if taken {
                                        target
                                    } else {
                                        next
                                    },
                                    completed_instrs: done,
                                    ..s
                                },
                            ),
                            _ => match commit_spec(op, m0) {
                                None => None,
                                Some(c) => Some(
                                    OneV { pc: next, completed_instrs: done, ..apply(s, c) },
                                ),
                            },
                        }
                    },
                }
            },
        }
    }
}

/// The message of a trap, which this machine does not implement.
pub open spec fn trap_msg(pc: u64, vector: u64) -> Seq<char> {
    "trap "@ + seq!['0', 'x'] + crate::text::zero_pad(crate::text::digits(vector as nat, 16), 2) + " at PC="@
        + seq!['0', 'x'] + crate::text::zero_pad(crate::text::digits(pc as nat, 16), 16) + " is not implemented"@
}

/// The fault message of a step that faults, where it is stated: a halted
/// machine, a misaligned pc, a frame shorter than two bytes, a frame past
/// the top of the address space, a trap, or the instruction's own fault in
/// execution. `None` for a frame that does not decode: that text is not
/// stated here.
pub open spec fn step_fault_msg(s: OneV, m0: MemGuard) -> Option<Seq<char>> {
    let b = frame_at(m0, s.pc);
    if s.halted {
        Some("tick() called while the simulator is halted"@)
    } else if s.pc % ALIGNMENT != 0 {
        Some(misaligned_fetch_msg(s.pc))
    } else if step_len(b) is None {
        Some(frame_len_msg(b))
    } else if s.pc + step_len(b).unwrap() + ALIGNMENT > u64::MAX {
        Some(
            "instruction at "@ + seq!['0', 'x'] + crate::text::zero_pad(crate::text::digits(s.pc as nat, 16), 16)
                + " runs past the address space"@,
        )
    } else {
        match decode_spec(s.pc, b, s.regs, s.z, s.n, s.v) {
            None => None,
            Some(DecodedOp::Trap { vector }) => Some(trap_msg(s.pc, vector)),
            Some(op) => Some(run_fault_msg(s.pc, op)),
        }
    }
}

/// The instruction at the pc is a branch that is taken.
pub open spec fn takes_branch(s: OneV, m: MemGuard) -> bool {
    decode_spec(s.pc, frame_at(m, s.pc), s.regs, s.z, s.n, s.v) matches Some(
        DecodedOp::Branch { taken: true, .. },
    )
}

/// The program counter stays on the alignment grid: no instruction executes
/// from a misaligned pc (the step faults), and every step other than a taken
/// branch moves on to an aligned pc. So a taken branch to a misaligned
/// target faults on the next step, and a branch that is not taken never
/// looks at its target.
pub proof fn law_pc_alignment(s: OneV, m: MemGuard)
    ensures
        s.pc % ALIGNMENT != 0 ==> step_spec(s, m) is None,
        step_spec(s, m) matches Some(s1) ==> (takes_branch(s, m) || s1.pc % ALIGNMENT == 0),
{
    if step_spec(s, m) is Some {
        let b = frame_at(m, s.pc);
        let len = step_len(b).unwrap();
        isa::lemma_align_up(s.pc + len, ALIGNMENT as int);
    }
}

/// What one instruction does to memory: a store writes, nothing else does.
pub open spec fn step_mem(s: OneV, m0: MemGuard, m1: MemGuard) -> bool {
    match decode_spec(s.pc, frame_at(m0, s.pc), s.regs, s.z, s.n, s.v) {
        Some(op) => mem_effect(op, m0, m1),
        None => m1 == m0,
    }
}

/// A trace of `k` fault-free steps: state and memory before the first, then
/// after each one.
pub open spec fn trace_ok(tr: Seq<(OneV, MemGuard)>, k: nat) -> bool {
    &&& tr.len() == k + 1
    &&& forall|i: int|
        0 <= i < k ==> step_spec(#[trigger] tr[i].0, tr[i].1) == Some(tr[i + 1].0) && step_mem(
            tr[i].0,
            tr[i].1,
            tr[i + 1].1,
        )
}

/// `k` fault-free steps lead from `(s0, m0)` to `(s1, m1)`.
pub open spec fn runs(s0: OneV, m0: MemGuard, s1: OneV, m1: MemGuard, k: nat) -> bool {
    exists|tr: Seq<(OneV, MemGuard)>|
        #[trigger] trace_ok(tr, k) && tr[0] == (s0, m0) && tr[k as int] == (s1, m1)
}

/// Two memories hold the same bytes and have the same pages mapped.
pub open spec fn same_memory(m0: MemGuard, m1: MemGuard) -> bool {
    &&& forall|a: int| #![trigger m0.byte(a)] #![trigger m1.byte(a)] 0 <= a <= u64::MAX ==> m0.byte(a) == m1.byte(a)
    &&& forall|a: int| #![trigger m0.mapped(a)] #![trigger m1.mapped(a)] 0 <= a <= u64::MAX ==> m0.mapped(a) == m1.mapped(a)
}

/// A step depends on memory only through its bytes and mapped pages, and
/// leaves memories that agreed agreeing.
pub proof fn lemma_step_same(s: OneV, m0: MemGuard, m1: MemGuard, n0: MemGuard, n1: MemGuard)
    requires
        same_memory(m0, n0),
    ensures
        step_spec(s, m0) == step_spec(s, n0),
        step_mem(s, m0, m1) && step_mem(s, n0, n1) ==> same_memory(m1, n1),
{
    assert(frame_at(m0, s.pc) =~= frame_at(n0, s.pc));
    match decode_spec(s.pc, frame_at(m0, s.pc), s.regs, s.z, s.n, s.v) {
        Some(op) => {
            match op {
                DecodedOp::Load { rd, addr, width, sext } => {
                    if crate::vea_sim::memory::in_space(addr as int, width as int) {
                        assert(m0.bytes_at(addr as int, width as nat) =~= n0.bytes_at(addr as int, width as nat));
                    }
                },
                _ => {},
            }
        },
        None => {},
    }
}

/// Instruction-level runs are determined by where they start: two runs from
/// the same state over agreeing memories pass through the same states over
/// agreeing memories.
pub proof fn lemma_runs_agree(t1: Seq<(OneV, MemGuard)>, k1: nat, t2: Seq<(OneV, MemGuard)>, k2: nat, i: nat)
    requires
        trace_ok(t1, k1),
        trace_ok(t2, k2),
        t1[0].0 == t2[0].0,
        same_memory(t1[0].1, t2[0].1),
        i <= k1,
        i <= k2,
    ensures
        t1[i as int].0 == t2[i as int].0,
        same_memory(t1[i as int].1, t2[i as int].1),
    decreases i,
{
    if i > 0 {
        let j = (i - 1) as nat;
        lemma_runs_agree(t1, k1, t2, k2, j);
        assert(step_spec(t1[j as int].0, t1[j as int].1) == Some(t1[j + 1int].0));
        assert(step_spec(t2[j as int].0, t2[j as int].1) == Some(t2[j + 1int].0));
        lemma_step_same(t1[j as int].0, t1[j as int].1, t1[j + 1int].1, t2[j as int].1, t2[j + 1int].1);
    }
}

/// Along a fault-free run, no state but the last has halted.
pub proof fn lemma_running_until_end(t: Seq<(OneV, MemGuard)>, k: nat, i: int)
    requires
        trace_ok(t, k),
        0 <= i < k,
    ensures
        !t[i].0.halted,
{
    assert(step_spec(t[i].0, t[i].1) is Some);
}

/// A snapshot shows this state.
pub open spec fn snapshot_of(s: OneV, snap: Snapshot) -> bool {
    &&& snap.pc == s.pc
    &&& snap.regs@ == s.regs
    &&& snap.flags.z == s.z && snap.flags.n == s.n && snap.flags.c == s.c && snap.flags.v == s.v
    &&& snap.completed_instrs == s.completed_instrs
    &&& snap.halted == s.halted
}

impl Processor {
    /// A reset machine.
    pub fn new() -> (p: Processor)
        ensures
            p@.pc == 0 && p@.completed_instrs == 0 && !p@.halted,
            p@.regs == Seq::new(NUM_REGS as nat, |i: int| 0u64),
            !p@.z && !p@.n && !p@.c && !p@.v,
    {
        let p = Processor {
            pc: 0,
            completed_instrs: 0,
            halted: false,
            regs: [0u64; NUM_REGS],
            cc: ConditionCodes::reset(),
        };
        assert(p@.regs =~= Seq::new(NUM_REGS as nat, |i: int| 0u64));
        p
    }

    /// Whether a halt has executed.
    pub fn halted(&self) -> (b: bool)
        ensures
            b == self.halted,
    {
        self.halted
    }

    /// Carry out one instruction.
    pub fn tick(&mut self, mem: &mut MemGuard) -> (r: Result<()>)
        requires
            old(mem).wf(),
            old(self).completed_instrs < u64::MAX,
        ensures
            final(mem).wf(),
            match step_spec(old(self)@, *old(mem)) {
                Some(s) => r is Ok && final(self)@ == s,
                None => r is Err,
            },
            r is Ok ==> step_mem(old(self)@, *old(mem), *final(mem)),
            r is Err ==> final(self)@ == old(self)@ && *final(mem) == *old(mem),
            !old(self).halted && old(self).pc % ALIGNMENT != 0 ==> (r matches Err(e) && e.0@
                == misaligned_fetch_msg(old(self).pc)),
            r matches Err(e) ==> (step_fault_msg(old(self)@, *old(mem)) matches Some(t) ==> e.0@ == t),
    {
        if self.halted {
            return Err(Msg::new("tick() called while the simulator is halted").error());
        }
        let pc = self.pc;
        if pc % ALIGNMENT != 0 {
            let mut m = Msg::new("instruction fetch at ");
            m.hex(pc, 16);
            m.lit(" is not aligned to 4 bytes");
            return Err(m.error());
        }
        let mut bytes = [0u8; MAX_INSN_BYTES];
        let mut i: usize = 0;
        while i < MAX_INSN_BYTES
            invariant
                mem.wf(),
                i <= MAX_INSN_BYTES,
                forall|j: int| 0 <= j < i ==> #[trigger] bytes@[j] == frame_at(*mem, pc)[j],
            decreases MAX_INSN_BYTES - i,
        {
            let a = pc.wrapping_add(i as u64);
            let b = match mem.read(a, 1) {
                Ok(v) => v as u8,
                Err(_) => 0,
            };
            proof {
                assert(a == (pc + i) % 0x1_0000_0000_0000_0000);
                crate::vea_sim::memory::lemma_be_val_one(mem.bytes_at(a as int, 1));
                assert(mem.bytes_at(a as int, 1)[0] == mem.byte(a as int));
            }
            bytes[i] = b;
            i += 1;
        }
        assert(bytes@ =~= frame_at(*mem, pc));
        let len: u64 = if bytes[0] == 0x00 || bytes[0] == 0xFF {
            2
        } else {
            frame_len(&bytes)?
        };
        if pc > u64::MAX - len - ALIGNMENT {
            let mut m = Msg::new("instruction at ");
            m.hex(pc, 16);
            m.lit(" runs past the address space");
            return Err(m.error());
        }
        let next = isa::align_up(pc + len, ALIGNMENT);
        let op = decode_op(
            pc,
            &bytes,
            &self.regs,
            self.cc.zero(),
            self.cc.neg(),
            self.cc.overflow(),
        )?;
        match op {
            DecodedOp::Branch { taken, target } => {
                self.pc = if taken {
                    target
                } else {
                    next
                };
            },
            DecodedOp::Trap { vector } => {
                let mut m = Msg::new("trap ");
                m.hex(vector, 2);
                m.lit(" at PC=");
                m.hex(pc, 16);
                m.lit(" is not implemented");
                return Err(m.error());
            },
            _ => {
                let c = run(pc, op, mem)?;
                match c {
                    Commit::Nothing => {},
                    Commit::Reg { rd, value } => {
                        self.regs[rd] = value as u64;
                    },
                    Commit::Flags { z, n, c, v } => {
                        self.cc.set(z, n, c, v);
                    },
                    Commit::Halt => {
                        self.halted = true;
                    },
                }
                self.pc = next;
            },
        }
        self.completed_instrs += 1;
        proof {
            if !(op is Branch) {
                assert(self@.regs =~= step_spec(old(self)@, *old(mem)).unwrap().regs);
            }
        }
        Ok(())
    }

    /// Run up to `amount` instructions, stopping early on a halt or a fault,
    /// then publish the machine state (with the fault message, if any).
    pub fn cycle(&mut self, mem: &mut MemGuard, shared: &mut Shared, amount: u64) -> (r: Result<()>)
        requires
            old(mem).wf(),
            old(self).completed_instrs + amount <= u64::MAX,
        ensures
            final(mem).wf(),
            r is Ok ==> exists|k: nat|
                k <= amount && #[trigger] runs(old(self)@, *old(mem), final(self)@, *final(mem), k)
                    && (k == amount || final(self).halted),
            r is Err ==> exists|k: nat|
                k < amount && #[trigger] runs(old(self)@, *old(mem), final(self)@, *final(mem), k)
                    && !final(self).halted && step_spec(final(self)@, *final(mem)) is None,
            r is Err && final(self).pc % ALIGNMENT != 0 ==> (r matches Err(e) && e.0@ == misaligned_fetch_msg(
                final(self).pc,
            )),
            r matches Err(e) ==> (step_fault_msg(final(self)@, *final(mem)) matches Some(t) ==> e.0@ == t),
            final(shared).snapshot.fault is Some <==> r is Err,
            r matches Err(e) ==> (final(shared).snapshot.fault matches Some(f) && f@ == e.0@),
            snapshot_of(final(self)@, final(shared).snapshot),
    {
        let ghost s0 = self@;
        let ghost m0 = *mem;
        let ghost mut tr: Seq<(OneV, MemGuard)> = seq![(s0, m0)];
        let mut k: u64 = 0;
        let mut outcome: Result<()> = Ok(());
        while k < amount
            invariant_except_break
                self.completed_instrs == s0.completed_instrs + k,
                outcome is Ok,
                trace_ok(tr, k as nat),
                tr[0] == (s0, m0),
                tr[k as int] == (self@, *mem),
            invariant
                mem.wf(),
                k <= amount,
                s0.completed_instrs + amount <= u64::MAX,
            ensures
                mem.wf(),
                trace_ok(tr, k as nat) && tr[0] == (s0, m0) && tr[k as int] == (self@, *mem),
                outcome is Ok ==> (k == amount || self.halted),
                outcome is Err ==> k < amount && !self.halted && step_spec(self@, *mem) is None,
                outcome is Err && self.pc % ALIGNMENT != 0 ==> (outcome matches Err(e) && e.0@
                    == misaligned_fetch_msg(self.pc)),
                outcome matches Err(e) ==> (step_fault_msg(self@, *mem) matches Some(t) ==> e.0@ == t),
            decreases amount - k,
        {
            if self.halted {
                break;
            }
            match self.tick(mem) {
                Ok(()) => {},
                Err(e) => {
                    outcome = Err(e);
                    break;
                },
            }
            proof {
                let t2 = tr.push((self@, *mem));
                assert forall|i: int| 0 <= i < k + 1 implies step_spec(#[trigger] t2[i].0, t2[i].1)
                    == Some(t2[i + 1].0) && step_mem(t2[i].0, t2[i].1, t2[i + 1].1) by {
                    if i < k {
                        assert(t2[i] == tr[i] && t2[i + 1] == tr[i + 1]);
                    } else {
                        assert(t2[i] == tr[k as int]);
                        assert(t2[i + 1] == (self@, *mem));
                    }
                }
                tr = t2;
            }
            k += 1;
        }
        assert(runs(s0, m0, self@, *mem, k as nat));
        let fault = match &outcome {
            Ok(()) => None,
            Err(e) => Some(e.to_string()),
        };
        let snap = self.snapshot(fault);
        shared.publish(snap);
        outcome
    }

    /// The architectural state as the UI sees it.
    pub fn snapshot(&self, fault: Option<String>) -> (s: Snapshot)
        ensures
            snapshot_of(self@, s),
            s.fault == fault,
            s.cycles == self.completed_instrs,
            s.pipeline is None,
    {
        Snapshot {
            pc: self.pc,
            regs: self.regs,
            flags: Flags {
                z: self.cc.zero(),
                n: self.cc.neg(),
                c: self.cc.carry(),
                v: self.cc.overflow(),
            },
            completed_instrs: self.completed_instrs,
            cycles: self.completed_instrs,
            halted: self.halted,
            fault,
            pipeline: None,
        }
    }

    /// Copy the architectural state onto the shared bus the UI renders from.
    pub fn publish(&self, shared: &mut Shared)
        ensures
            snapshot_of(self@, final(shared).snapshot),
            final(shared).snapshot.fault is None,
    {
        let snap = self.snapshot(None);
        shared.publish(snap);
    }
}

} // verus!
