//! The pipelined simulator against the instruction-level one. Every clock
//! edge of the pipeline either retires nothing the architecture can see or
//! carries out exactly the next instruction, so a run of the pipeline is a
//! run of the instruction-level machine; and while the instruction-level
//! machine still has steps to go, the next clock edge goes through, so the
//! pipeline reaches every halt the instruction-level machine reaches. The
//! conditions: a store must not write the frame that was fetched right
//! behind it (the pipeline has already latched those bytes; the
//! instruction-level machine reads them after the store), and each frame
//! must sit on a page that was mapped when the pipeline fetched it; and a
//! nop or a halt must declare its true length of two bytes (the
//! instruction-level machine counts two bytes for them whatever they
//! declare).
use crate::vea_sim::isa::{spec_align_up, ALIGNMENT, MAX_INSN_BYTES};
use crate::vea_sim::memory::MemGuard;
use crate::vea_sim::nstep::decode::{decode_spec, decode_stage_spec, fwd_flags, fwd_regs};
use crate::vea_sim::nstep::execute::{commit_spec, execute_mem, execute_spec, mem_effect};
use crate::vea_sim::nstep::fetch::{fetch_spec, frame_at};
use crate::vea_sim::nstep::writeback::writeback_spec;
use crate::vea_sim::nstep::{self, frame_len_spec, Commit, DecodedOp, ProcV};
use crate::vea_sim::onestep::{self, apply, step_len, step_mem, step_spec, OneV};
use vstd::prelude::*;

verus! {

/// The architectural state the pipeline has committed to: its registers,
/// flags, retired count and halt flag with the result waiting in EX/WB
/// applied.
pub open spec fn committed(p: ProcV) -> OneV {
    let base = OneV {
        pc: p.pc,
        completed_instrs: p.completed_instrs,
        halted: p.halted,
        regs: p.regs,
        z: p.z,
        n: p.n,
        c: p.c,
        v: p.v,
    };
    match p.ex_wb {
        None => base,
        Some(l) => OneV { completed_instrs: (p.completed_instrs + 1) as u64, ..apply(base, l.commit) },
    }
}

/// The address of the oldest instruction not yet executed: the one in
/// ID/EX, else the one in IF/ID, else the fetch address.
pub open spec fn arch_pc(p: ProcV) -> u64 {
    match p.id_ex {
        Some(l) => l.pc,
        None => match p.if_id {
            Some((pc, _)) => pc,
            None => p.pc,
        },
    }
}

/// The instruction-level state a pipeline state stands for.
pub open spec fn arch_state(p: ProcV) -> OneV {
    OneV { pc: arch_pc(p), ..committed(p) }
}

/// Fetch accepted the frame at `pc`: aligned, mapped, at least two bytes,
/// and the next address inside the address space.
pub open spec fn fetched_ok(m: MemGuard, pc: u64) -> bool {
    &&& pc % ALIGNMENT == 0
    &&& m.mapped(pc as int)
    &&& frame_len_spec(frame_at(m, pc)[1]) matches Some(len) && pc + len + ALIGNMENT <= u64::MAX
}

/// The address after the instruction at `pc` with frame `b`: a taken
/// branch's target, else the next aligned frame.
pub open spec fn next_after(pc: u64, b: Seq<u8>, op: DecodedOp) -> u64 {
    match op {
        DecodedOp::Branch { taken, target } => if taken {
            target
        } else {
            spec_align_up(pc + frame_len_spec(b[1]).unwrap(), ALIGNMENT as int) as u64
        },
        _ => spec_align_up(pc + frame_len_spec(b[1]).unwrap(), ALIGNMENT as int) as u64,
    }
}

/// The pipeline's latches agree with memory and with what it has
/// committed: the latched frame is the frame in memory and is where the
/// instruction ahead of it continues; the decoded instruction is what its
/// frame decodes to over the committed registers and flags; a decoded halt
/// has stopped fetching; nothing follows a committed halt.
#[verifier::opaque]
pub open spec fn consistent(p: ProcV, m: MemGuard) -> bool {
    let c = committed(p);
    &&& p.if_id matches Some((pc2, b2)) ==> {
        &&& b2 == frame_at(m, pc2)
        &&& fetched_ok(m, pc2)
        &&& p.pc == spec_align_up(pc2 + frame_len_spec(b2[1]).unwrap(), ALIGNMENT as int) as u64
        &&& !p.halt_pending
    }
    &&& p.id_ex matches Some(l) ==> {
        &&& !c.halted
        &&& fetched_ok(m, l.pc)
        &&& decode_spec(l.pc, frame_at(m, l.pc), c.regs, c.z, c.n, c.v) == Some(l.op)
        &&& (l.op is Halt) == p.halt_pending
        &&& l.op is Halt ==> p.if_id is None && p.pc == next_after(l.pc, frame_at(m, l.pc), l.op)
        &&& !(l.op is Halt) ==> (p.if_id matches Some((pc2, _)) && pc2 == next_after(
            l.pc,
            frame_at(m, l.pc),
            l.op,
        ))
    }
    &&& p.id_ex is None ==> (p.halt_pending == c.halted)
    &&& p.halt_pending ==> p.if_id is None
    &&& c.halted ==> p.id_ex is None
    &&& p.halted ==> p.ex_wb is None
}

/// A nop or a halt declares its true length, two bytes (the
/// instruction-level machine counts two bytes for them whatever they
/// declare; the pipeline goes by the declared length).
pub open spec fn nop_halt_fits(b: Seq<u8>) -> bool {
    (b[0] == 0x00 || b[0] == 0xFF) ==> frame_len_spec(b[1]) == Some(2nat)
}

/// The instruction in ID/EX, if there is one, is not a nop or a halt that
/// declares another length.
pub open spec fn executes_fitting(p: ProcV, m: MemGuard) -> bool {
    p.id_ex matches Some(l) ==> nop_halt_fits(frame_at(m, l.pc))
}

/// The store in ID/EX, if there is one, leaves the frame latched in IF/ID
/// alone.
pub open spec fn spares_next_frame(p: ProcV) -> bool {
    p.id_ex matches Some(l) ==> (l.op matches DecodedOp::Store { addr, width, .. } ==> (
    p.if_id matches Some((pc2, _)) ==> forall|i: int|
        0 <= i < MAX_INSN_BYTES ==> !(addr <= #[trigger] ((pc2 + i) % 0x1_0000_0000_0000_0000) < addr
            + width)))
}


/// Writeback moves the result in EX/WB into the registers: the committed
/// view does not change.
proof fn lemma_writeback_committed(p: ProcV)
    ensures
        committed(writeback_spec(p)) == committed(p),
        writeback_spec(p).ex_wb is None,
        writeback_spec(p).if_id == p.if_id && writeback_spec(p).id_ex == p.id_ex,
        writeback_spec(p).pc == p.pc && writeback_spec(p).halt_pending == p.halt_pending,
{
}

/// A store that spares the frame at `pc` leaves that frame, and every
/// mapped page, as it was; anything else leaves memory as it was.
proof fn lemma_frame_survives(op: DecodedOp, m0: MemGuard, m1: MemGuard, pc: u64)
    requires
        mem_effect(op, m0, m1),
        op matches DecodedOp::Store { addr, width, .. } ==> forall|i: int|
            0 <= i < MAX_INSN_BYTES ==> !(addr <= #[trigger] ((pc + i) % 0x1_0000_0000_0000_0000) < addr
                + width),
    ensures
        frame_at(m1, pc) == frame_at(m0, pc),
        forall|a: int| 0 <= a <= u64::MAX && #[trigger] m0.mapped(a) ==> m1.mapped(a),
{
    match op {
        DecodedOp::Store { addr, width, value } => {
            assert forall|i: int| 0 <= i < MAX_INSN_BYTES implies #[trigger] frame_at(m1, pc)[i] == frame_at(
                m0,
                pc,
            )[i] by {
                let a = (pc + i) % 0x1_0000_0000_0000_0000;
                assert(!(addr <= a < addr + width));
            }
            assert(frame_at(m1, pc) =~= frame_at(m0, pc));
        },
        _ => {},
    }
}

/// One clock edge. With nothing in ID/EX the architectural state stands
/// still and memory is untouched; otherwise the edge is exactly one
/// instruction-level step.
proof fn lemma_tick(p: ProcV, m0: MemGuard, m1: MemGuard, p1: ProcV)
    requires
        consistent(p, m0),
        spares_next_frame(p),
        executes_fitting(p, m0),
        nstep::tick_spec(p, m0, m1) == Some(p1),
        nstep::tick_mem(p, m0, m1),
    ensures
        consistent(p1, m1),
        p.id_ex is None ==> arch_state(p1) == arch_state(p) && m1 == m0,
        p.id_ex is Some ==> step_spec(arch_state(p), m0) == Some(arch_state(p1)) && step_mem(
            arch_state(p),
            m0,
            m1,
        ),
{
    reveal(consistent);
    let s1 = writeback_spec(p);
    lemma_writeback_committed(p);
    let s2 = execute_spec(s1, m0).unwrap();
    let s3 = decode_stage_spec(s2).unwrap();
    let s4 = fetch_spec(s3, m1).unwrap();
    assert(p1 == ProcV { cycles: (s4.cycles + 1) as u64, ..s4 });
    assert(execute_mem(s1, m0, m1));
    // memory across this edge
    match p.id_ex {
        None => {
            assert(m1 == m0);
        },
        Some(l) => {
            match p.if_id {
                Some((pc2, b2)) => {
                    lemma_frame_survives(l.op, m0, m1, pc2);
                },
                None => {
                    lemma_frame_survives(l.op, m0, m1, 0);
                },
            }
        },
    }
    // the committed view after Execute
    let c0 = committed(p);
    match p.id_ex {
        None => {
            assert(s2.ex_wb is None);
            assert(committed(s2) == c0);
        },
        Some(l) => {
            assert(step_len(frame_at(m0, l.pc)) == frame_len_spec(frame_at(m0, l.pc)[1]));
            let c = commit_spec(l.op, m0).unwrap();
            assert(s2.ex_wb == Some(nstep::ExWb { pc: l.pc, commit: c }));
            assert(fwd_regs(s2) == apply(c0, c).regs);
            assert(fwd_flags(s2) == (apply(c0, c).z, apply(c0, c).n, apply(c0, c).v));
        },
    }
}

/// A pipeline with empty latches that has not halted or seen a halt.
pub open spec fn fresh(p: ProcV) -> bool {
    &&& p.if_id is None && p.id_ex is None && p.ex_wb is None
    &&& !p.halt_pending && !p.halted
}

/// A fault-free run of `k` pipeline clock edges in which no store writes
/// the frame fetched right behind it and every nop or halt executed
/// declares two bytes.
pub open spec fn clean_trace(tr: Seq<(ProcV, MemGuard)>, k: nat) -> bool {
    &&& nstep::trace_ok(tr, k)
    &&& forall|i: int| 0 <= i < k ==> spares_next_frame(#[trigger] tr[i].0) && executes_fitting(tr[i].0, tr[i].1)
}

/// An instruction-level trace extended by one more step.
proof fn lemma_extend(ot: Seq<(OneV, MemGuard)>, n: nat, o: OneV, m: MemGuard)
    requires
        onestep::trace_ok(ot, n),
        step_spec(ot[n as int].0, ot[n as int].1) == Some(o),
        step_mem(ot[n as int].0, ot[n as int].1, m),
    ensures
        onestep::trace_ok(ot.push((o, m)), n + 1),
        ot.push((o, m))[0] == ot[0],
{
    let ot2 = ot.push((o, m));
    assert forall|x: int| 0 <= x < n + 1 implies step_spec(#[trigger] ot2[x].0, ot2[x].1) == Some(ot2[x + 1].0)
        && step_mem(ot2[x].0, ot2[x].1, ot2[x + 1].1) by {
        if x < n {
            assert(ot2[x] == ot[x] && ot2[x + 1] == ot[x + 1]);
        } else {
            assert(ot2[x] == ot[n as int]);
        }
    }
}

/// Every prefix of a clean run from a consistent state is an
/// instruction-level run between the states the pipeline stands for.
proof fn lemma_trace(tr: Seq<(ProcV, MemGuard)>, k: nat, j: nat) -> (r: (Seq<(OneV, MemGuard)>, nat))
    requires
        clean_trace(tr, k),
        consistent(tr[0].0, tr[0].1),
        j <= k,
    ensures
        consistent(tr[j as int].0, tr[j as int].1),
        r.1 <= j,
        onestep::trace_ok(r.0, r.1),
        r.0[0] == (arch_state(tr[0].0), tr[0].1),
        r.0[r.1 as int] == (arch_state(tr[j as int].0), tr[j as int].1),
    decreases j,
{
    if j == 0 {
        let ot = seq![(arch_state(tr[0].0), tr[0].1)];
        (ot, 0)
    } else {
        let (ot, n) = lemma_trace(tr, k, (j - 1) as nat);
        let i = j - 1;
        let (p, m0) = tr[i as int];
        let (p1, m1) = tr[j as int];
        assert(nstep::tick_spec(tr[i as int].0, tr[i as int].1, tr[i + 1].1) == Some(tr[i + 1].0));
        assert(spares_next_frame(tr[i as int].0) && executes_fitting(tr[i as int].0, tr[i as int].1));
        lemma_tick(p, m0, m1, p1);
        if p.id_ex is None {
            (ot, n)
        } else {
            lemma_extend(ot, n, arch_state(p1), m1);
            (ot.push((arch_state(p1), m1)), n + 1)
        }
    }
}

/// The pipelined simulator agrees with the instruction-level one: from a
/// pipeline with empty latches, every fault-free run in which no store
/// writes the frame fetched right behind it (and every nop or halt declares
/// two bytes) is, instruction for
/// instruction, a run of the instruction-level simulator from the same
/// architectural state and memory, ending in the state the pipeline has
/// committed to and the same memory. Once the pipeline has halted, that is
/// exactly its registers, flags, retired count and fetch address.
pub proof fn law_pipeline_matches_onestep(p0: ProcV, m0: MemGuard, p1: ProcV, m1: MemGuard, k: nat)
    requires
        fresh(p0),
        exists|tr: Seq<(ProcV, MemGuard)>|
            #[trigger] clean_trace(tr, k) && tr[0] == (p0, m0) && tr[k as int] == (p1, m1),
    ensures
        exists|n: nat| n <= k && #[trigger] onestep::runs(arch_state(p0), m0, arch_state(p1), m1, n),
        arch_state(p0) == (OneV {
            pc: p0.pc,
            completed_instrs: p0.completed_instrs,
            halted: false,
            regs: p0.regs,
            z: p0.z,
            n: p0.n,
            c: p0.c,
            v: p0.v,
        }),
        p1.halted ==> arch_state(p1) == (OneV {
            pc: p1.pc,
            completed_instrs: p1.completed_instrs,
            halted: true,
            regs: p1.regs,
            z: p1.z,
            n: p1.n,
            c: p1.c,
            v: p1.v,
        }),
{
    let tr = choose|tr: Seq<(ProcV, MemGuard)>|
        #[trigger] clean_trace(tr, k) && tr[0] == (p0, m0) && tr[k as int] == (p1, m1);
    assert(consistent(p0, m0)) by {
        reveal(consistent);
    }
    let (ot, n) = lemma_trace(tr, k, k);
    assert(onestep::runs(arch_state(p0), m0, arch_state(p1), m1, n));
    reveal(consistent);
}


/// The store the instruction-level machine runs at `o` over memory `m`, if
/// the instruction there is a store, leaves the frame at `pc2` alone.
pub open spec fn store_spares(o: OneV, m: MemGuard, pc2: u64) -> bool {
    decode_spec(o.pc, frame_at(m, o.pc), o.regs, o.z, o.n, o.v) matches Some(
        DecodedOp::Store { addr, width, .. },
    ) ==> forall|i: int|
        0 <= i < MAX_INSN_BYTES ==> !(addr <= #[trigger] ((pc2 + i) % 0x1_0000_0000_0000_0000) < addr
            + width)
}

/// Along an instruction-level run of `n` steps, the frame of each
/// instruction after the first sits on a page that was already mapped
/// before the instruction ahead of it ran, and no store writes the frame of
/// the instruction right after it; the first frame is mapped; and every nop
/// or halt declares two bytes.
pub open spec fn trace_spares(ot: Seq<(OneV, MemGuard)>, n: nat) -> bool {
    &&& ot[0].1.mapped(ot[0].0.pc as int)
    &&& forall|i: int|
        0 <= i && i + 1 < n ==> #[trigger] ot[i].1.mapped(ot[i + 1].0.pc as int) && store_spares(
            ot[i].0,
            ot[i].1,
            ot[i + 1].0.pc,
        )
    &&& forall|i: int| 0 <= i < n ==> nop_halt_fits(#[trigger] frame_at(ot[i].1, ot[i].0.pc))
}

/// A fault-free instruction-level run of `n` steps that ends halted and
/// spares the frames as `trace_spares` says.
#[verifier::opaque]
pub open spec fn halting_run(ot: Seq<(OneV, MemGuard)>, n: nat) -> bool {
    &&& onestep::trace_ok(ot, n)
    &&& ot[n as int].0.halted
    &&& trace_spares(ot, n)
}

/// One instance of `trace_spares`.
proof fn lemma_spares_at(ot: Seq<(OneV, MemGuard)>, n: nat, i: int)
    requires
        halting_run(ot, n),
        0 <= i,
        i + 1 < n,
    ensures
        ot[i].1.mapped(ot[i + 1].0.pc as int),
        store_spares(ot[i].0, ot[i].1, ot[i + 1].0.pc),
{
    reveal(halting_run);
    assert(ot[i].1.mapped(ot[i + 1].0.pc as int));
}

/// What one step of a fault-free instruction-level run tells: the machine
/// had not halted, the frame was sound, it decoded, and the next state is
/// the committed result at the next address.
proof fn lemma_step_facts(ot: Seq<(OneV, MemGuard)>, n: nat, i: int)
    requires
        halting_run(ot, n),
        0 <= i < n,
    ensures
        !ot[i].0.halted,
        ot[i].0.pc % ALIGNMENT == 0,
        frame_len_spec(frame_at(ot[i].1, ot[i].0.pc)[1]) matches Some(len) && ot[i].0.pc + len
            + ALIGNMENT <= u64::MAX,
        decode_spec(
            ot[i].0.pc,
            frame_at(ot[i].1, ot[i].0.pc),
            ot[i].0.regs,
            ot[i].0.z,
            ot[i].0.n,
            ot[i].0.v,
        ) matches Some(op) && {
            &&& ot[i + 1].0.pc == next_after(ot[i].0.pc, frame_at(ot[i].1, ot[i].0.pc), op)
            &&& commit_spec(op, ot[i].1) matches Some(c) && ot[i + 1].0 == (OneV {
                pc: ot[i + 1].0.pc,
                completed_instrs: (ot[i].0.completed_instrs + 1) as u64,
                ..apply(ot[i].0, c)
            })
            &&& mem_effect(op, ot[i].1, ot[i + 1].1)
            &&& ot[i + 1].0.halted == (op is Halt)
        },
{
    reveal(halting_run);
    assert(nop_halt_fits(frame_at(ot[i].1, ot[i].0.pc)));
    assert(step_spec(ot[i].0, ot[i].1) == Some(ot[i + 1].0));
    assert(step_mem(ot[i].0, ot[i].1, ot[i + 1].1));
}

/// Before the last step of a run that ends halted, the machine has not
/// halted; a step that is not a halt leaves another step to come.
proof fn lemma_before_end(ot: Seq<(OneV, MemGuard)>, n: nat, i: int)
    requires
        halting_run(ot, n),
        0 <= i <= n,
        !ot[i].0.halted,
    ensures
        i < n,
{
    reveal(halting_run);
}


/// How far the pipeline still is from retiring the instruction at its
/// architectural pc: an instruction in ID/EX is next to execute, one in
/// IF/ID first has to be decoded, otherwise it still has to be fetched (or
/// the halt in EX/WB to be written back).
spec fn stage(p: ProcV) -> int {
    (if p.id_ex is Some {
        0int
    } else if p.if_id is Some {
        1int
    } else {
        2int
    }) + if p.halted {
        0int
    } else {
        1int
    }
}

/// The pipeline over memory `m` stands for step `e` of the halting,
/// frame-sparing instruction-level run `ot` of `n` steps.
spec fn tracks(p: ProcV, m: MemGuard, ot: Seq<(OneV, MemGuard)>, n: nat, e: nat) -> bool {
    &&& e <= n
    &&& halting_run(ot, n)
    &&& consistent(p, m)
    &&& arch_state(p) == ot[e as int].0
    &&& m == ot[e as int].1
}

/// Fetch succeeds at the pc of step `j` of the run, reading the memory of
/// that step or of the step before it.
proof fn lemma_fetch_ok(s: ProcV, ot: Seq<(OneV, MemGuard)>, n: nat, j: int, mf: MemGuard)
    requires
        halting_run(ot, n),
        0 <= j < n,
        (j > 0 && mf == ot[j - 1].1) || mf == ot[j].1,
        !s.halt_pending,
        s.pc == ot[j].0.pc,
    ensures
        fetch_spec(s, mf) is Some,
{
    lemma_step_facts(ot, n, j);
    if j > 0 {
        let i = j - 1;
        lemma_spares_at(ot, n, i);
        lemma_step_facts(ot, n, i);
        let op = decode_spec(
            ot[i].0.pc,
            frame_at(ot[i].1, ot[i].0.pc),
            ot[i].0.regs,
            ot[i].0.z,
            ot[i].0.n,
            ot[i].0.v,
        ).unwrap();
        lemma_frame_survives(op, ot[i].1, ot[j].1, s.pc);
    } else {
        reveal(halting_run);
    }
}

/// What consistency says of the latches ahead of ID/EX.
proof fn lemma_consistent_front(p: ProcV, m: MemGuard)
    requires
        consistent(p, m),
    ensures
        p.if_id matches Some((pc2, b2)) ==> {
            &&& b2 == frame_at(m, pc2)
            &&& fetched_ok(m, pc2)
            &&& p.pc == spec_align_up(pc2 + frame_len_spec(b2[1]).unwrap(), ALIGNMENT as int) as u64
            &&& !p.halt_pending
        },
        p.id_ex is None ==> (p.halt_pending == committed(p).halted),
        p.halt_pending ==> p.if_id is None,
        committed(p).halted ==> p.id_ex is None,
        p.halted ==> p.ex_wb is None,
{
    reveal(consistent);
}

/// What consistency says of the instruction in ID/EX.
proof fn lemma_consistent_exec(p: ProcV, m: MemGuard)
    requires
        consistent(p, m),
        p.id_ex is Some,
    ensures
        ({
            let l = p.id_ex.unwrap();
            let c = committed(p);
            &&& !c.halted
            &&& decode_spec(l.pc, frame_at(m, l.pc), c.regs, c.z, c.n, c.v) == Some(l.op)
            &&& (l.op is Halt) == p.halt_pending
            &&& l.op is Halt ==> p.if_id is None
            &&& !(l.op is Halt) ==> (p.if_id matches Some((pc2, _)) && pc2 == next_after(
                l.pc,
                frame_at(m, l.pc),
                l.op,
            ))
        }),
{
    reveal(consistent);
}

/// The clock edge that executes step `e` of the run goes through, and its
/// store (if any) spares the frame behind it.
proof fn lemma_tick_exec(p: ProcV, m: MemGuard, ot: Seq<(OneV, MemGuard)>, n: nat, e: int)
    requires
        tracks(p, m, ot, n, e as nat),
        0 <= e,
        !p.halted,
        p.id_ex is Some,
    ensures
        e < n,
        nstep::tick_spec(p, m, ot[e + 1].1) is Some,
        nstep::tick_mem(p, m, ot[e + 1].1),
        spares_next_frame(p),
        executes_fitting(p, m),
{
    lemma_consistent_exec(p, m);
    lemma_consistent_front(p, m);
    let l = p.id_ex.unwrap();
    let s1 = writeback_spec(p);
    lemma_writeback_committed(p);
    lemma_before_end(ot, n, e);
    lemma_step_facts(ot, n, e);
    assert(nop_halt_fits(frame_at(ot[e].1, ot[e].0.pc))) by {
        reveal(halting_run);
    }
    let op = l.op;
    let m1 = ot[e + 1].1;
    assert(execute_spec(s1, m) is Some);
    let s2 = execute_spec(s1, m).unwrap();
    assert(fwd_regs(s2) == ot[e + 1].0.regs);
    assert(fwd_flags(s2) == (ot[e + 1].0.z, ot[e + 1].0.n, ot[e + 1].0.v));
    if !(op is Halt) {
        let (pc2, b2) = p.if_id.unwrap();
        lemma_before_end(ot, n, e + 1);
        lemma_spares_at(ot, n, e);
        assert(decode_spec(
            ot[e].0.pc,
            frame_at(ot[e].1, ot[e].0.pc),
            ot[e].0.regs,
            ot[e].0.z,
            ot[e].0.n,
            ot[e].0.v,
        ) == Some(op));
        assert(pc2 == ot[e + 1].0.pc);
        lemma_frame_survives(op, m, m1, pc2);
        lemma_decode_fetch(s2, ot, n, e + 1, m1);
    }
}
/// Decode and Fetch go through when IF/ID holds step `j` of the run over the
/// registers and flags before it: Fetch then reads the memory `mf` of step
/// `j`'s own start.
proof fn lemma_decode_fetch(s2: ProcV, ot: Seq<(OneV, MemGuard)>, n: nat, j: int, mf: MemGuard)
    requires
        halting_run(ot, n),
        0 <= j < n,
        mf == ot[j].1,
        s2.if_id == Some((ot[j].0.pc, frame_at(mf, ot[j].0.pc))),
        fwd_regs(s2) == ot[j].0.regs,
        fwd_flags(s2) == (ot[j].0.z, ot[j].0.n, ot[j].0.v),
        !s2.halt_pending,
        s2.pc == spec_align_up(
            ot[j].0.pc + frame_len_spec(frame_at(mf, ot[j].0.pc)[1]).unwrap(),
            ALIGNMENT as int,
        ) as u64,
    ensures
        decode_stage_spec(s2) matches Some(s3) && fetch_spec(s3, mf) is Some,
{
    lemma_step_facts(ot, n, j);
    assert(decode_stage_spec(s2) is Some);
    let s3 = decode_stage_spec(s2).unwrap();
    if !s3.halt_pending {
        lemma_before_end(ot, n, j + 1);
        assert(s3.pc == ot[j + 1].0.pc);
        lemma_fetch_ok(s3, ot, n, j + 1, mf);
    }
}

/// While the run has steps left, the next clock edge goes through: no
/// stage faults, its store (if any) spares the frame behind it, and memory
/// afterwards is the run's memory after the instruction it executes.
proof fn lemma_tick_exists(p: ProcV, m: MemGuard, ot: Seq<(OneV, MemGuard)>, n: nat, e: nat) -> (r: (
    ProcV,
    MemGuard,
))
    requires
        tracks(p, m, ot, n, e),
        !p.halted,
    ensures
        nstep::tick_spec(p, m, r.1) == Some(r.0),
        nstep::tick_mem(p, m, r.1),
        spares_next_frame(p),
        executes_fitting(p, m),
        p.id_ex is None ==> r.1 == m && stage(r.0) < stage(p),
        p.id_ex is Some ==> e < n && r.1 == ot[e + 1int].1,
{
    let ei = e as int;
    if p.id_ex is Some {
        lemma_tick_exec(p, m, ot, n, ei);
        (nstep::tick_spec(p, m, ot[ei + 1].1).unwrap(), ot[ei + 1].1)
    } else {
        lemma_consistent_front(p, m);
        let s1 = writeback_spec(p);
        lemma_writeback_committed(p);
        let s2 = execute_spec(s1, m).unwrap();
        assert(fwd_regs(s2) == ot[ei].0.regs);
        if p.if_id is Some {
            lemma_before_end(ot, n, ei);
            lemma_decode_fetch(s2, ot, n, ei, m);
        } else if !p.halt_pending {
            lemma_before_end(ot, n, ei);
            lemma_fetch_ok(s2, ot, n, ei, m);
        }
        assert(nstep::tick_spec(p, m, m) is Some);
        (nstep::tick_spec(p, m, m).unwrap(), m)
    }
}

/// Drive the pipeline from a state standing for step `e` of the run until
/// it halts: the clock edges all go through, and the pipeline halts in the
/// run's final state and memory.
proof fn lemma_drive(p: ProcV, m: MemGuard, ot: Seq<(OneV, MemGuard)>, n: nat, e: nat) -> (r: (
    Seq<(ProcV, MemGuard)>,
    nat,
))
    requires
        tracks(p, m, ot, n, e),
    ensures
        nstep::trace_ok(r.0, r.1),
        r.0[0] == (p, m),
        r.0[r.1 as int].0.halted,
        consistent(r.0[r.1 as int].0, r.0[r.1 as int].1),
        arch_state(r.0[r.1 as int].0) == ot[n as int].0,
        r.0[r.1 as int].1 == ot[n as int].1,
    decreases 3 * (n - e) + stage(p),
{
    if p.halted {
        lemma_consistent_front(p, m);
        if e < n {
            lemma_step_facts(ot, n, e as int);
        }
        (seq![(p, m)], 0)
    } else {
        let (p1, m1) = lemma_tick_exists(p, m, ot, n, e);
        lemma_tick(p, m, m1, p1);
        let e1: nat = if p.id_ex is Some {
            lemma_step_facts(ot, n, e as int);
            e + 1
        } else {
            e
        };
        let (tr, k) = lemma_drive(p1, m1, ot, n, e1);
        let tr2 = seq![(p, m)] + tr;
        assert forall|i: int| 0 <= i < k + 1 implies nstep::tick_spec(
            #[trigger] tr2[i].0,
            tr2[i].1,
            tr2[i + 1].1,
        ) == Some(tr2[i + 1].0) && nstep::tick_mem(tr2[i].0, tr2[i].1, tr2[i + 1].1) by {
            if i > 0 {
                assert(tr2[i] == tr[i - 1] && tr2[i + 1] == tr[i]);
                assert(nstep::tick_spec(tr[i - 1].0, tr[i - 1].1, tr[i - 1 + 1].1) == Some(tr[i - 1 + 1].0));
            }
        }
        (tr2, k + 1)
    }
}

/// Conversely, the pipeline reaches every halt the instruction-level
/// simulator reaches: from a pipeline with empty latches, if the
/// instruction-level machine runs from the same architectural state and
/// memory to a halt, fetching each frame after the first from a page that
/// was mapped before the instruction ahead of it ran, no store writes the
/// frame of the instruction right after it, and every nop or halt declares
/// two bytes, then the pipeline runs
/// without a fault until it halts, with the same registers, flags, retired
/// count, fetch address and memory.
pub proof fn law_onestep_halt_reached_by_pipeline(
    p0: ProcV,
    m0: MemGuard,
    ot: Seq<(OneV, MemGuard)>,
    n: nat,
)
    requires
        fresh(p0),
        onestep::trace_ok(ot, n),
        ot[0] == (arch_state(p0), m0),
        ot[n as int].0.halted,
        trace_spares(ot, n),
    ensures
        exists|k: nat, p1: ProcV|
            #[trigger] nstep::runs(p0, m0, p1, ot[n as int].1, k) && p1.halted && ot[n as int].0 == (
            OneV {
                pc: p1.pc,
                completed_instrs: p1.completed_instrs,
                halted: true,
                regs: p1.regs,
                z: p1.z,
                n: p1.n,
                c: p1.c,
                v: p1.v,
            }),
{
    assert(consistent(p0, m0)) by {
        reveal(consistent);
    }
    assert(halting_run(ot, n)) by {
        reveal(halting_run);
    }
    let (tr, k) = lemma_drive(p0, m0, ot, n, 0);
    let p1 = tr[k as int].0;
    assert(nstep::runs(p0, m0, p1, ot[n as int].1, k));
    reveal(consistent);
}

} // verus!
