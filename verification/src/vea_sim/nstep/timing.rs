//! How long the pipeline takes: Fetch, Decode, Execute and Writeback are
//! four clock edges deep and nothing stalls, so the first instruction
//! retires on the fourth edge and one more retires on every edge after it.
use crate::vea_sim::memory::MemGuard;
use crate::vea_sim::nstep::decode::decode_stage_spec;
use crate::vea_sim::nstep::execute::execute_spec;
use crate::vea_sim::nstep::fetch::fetch_spec;
use crate::vea_sim::nstep::writeback::writeback_spec;
use crate::vea_sim::nstep::{runs, tick_spec, trace_ok, Commit, ProcV};
use vstd::prelude::*;

verus! {

/// Which latches are full `t` edges after a start with empty latches: IF/ID
/// unless a halt has been decoded, ID/EX from the second edge on (or the
/// halt has moved on to EX/WB), EX/WB from the third edge on.
pub open spec fn occupancy(p: ProcV, t: nat) -> bool {
    &&& t == 0 ==> p.if_id is None && p.id_ex is None && p.ex_wb is None && !p.halt_pending
    &&& t <= 1 ==> p.id_ex is None
    &&& t <= 2 ==> p.ex_wb is None
    &&& t >= 1 && !p.halted ==> (p.if_id is Some <==> !p.halt_pending)
    &&& t >= 2 && !p.halted ==> (p.id_ex is Some || (p.halt_pending && (p.ex_wb matches Some(l) && l.commit
        == Commit::Halt)))
    &&& t >= 3 && !p.halted ==> p.ex_wb is Some
    &&& p.halt_pending ==> (p.id_ex matches Some(l) ==> l.op is Halt)
    &&& p.halt_pending && p.id_ex is None && !p.halted ==> (p.ex_wb matches Some(l) && l.commit == Commit::Halt)
}

proof fn lemma_tick_occupancy(p: ProcV, m0: MemGuard, m1: MemGuard, p1: ProcV, t: nat)
    requires
        occupancy(p, t),
        tick_spec(p, m0, m1) == Some(p1),
    ensures
        occupancy(p1, t + 1),
        p1.completed_instrs == if p.ex_wb is Some {
            (p.completed_instrs + 1) as u64
        } else {
            p.completed_instrs
        },
        p.ex_wb is Some <==> t >= 3,
{
    let s1 = writeback_spec(p);
    let s2 = execute_spec(s1, m0).unwrap();
    let s3 = decode_stage_spec(s2).unwrap();
    let s4 = fetch_spec(s3, m1).unwrap();
    assert(p1 == ProcV { cycles: (s4.cycles + 1) as u64, ..s4 });
}

proof fn lemma_runs_occupancy(tr: Seq<(ProcV, MemGuard)>, k: nat, j: nat)
    requires
        trace_ok(tr, k),
        occupancy(tr[0].0, 0),
        j <= k,
        tr[0].0.completed_instrs + k <= u64::MAX,
    ensures
        occupancy(tr[j as int].0, j),
        tr[j as int].0.completed_instrs == tr[0].0.completed_instrs + if j >= 3 {
            j - 3
        } else {
            0
        },
    decreases j,
{
    if j > 0 {
        lemma_runs_occupancy(tr, k, (j - 1) as nat);
        let i = j - 1;
        assert(tick_spec(tr[i as int].0, tr[i as int].1, tr[i + 1].1) == Some(tr[i + 1].0));
        lemma_tick_occupancy(tr[i as int].0, tr[i as int].1, tr[j as int].1, tr[j as int].0, i as nat);
    }
}

/// Fetch, Decode, Execute and Writeback are four edges deep and nothing
/// stalls: from empty latches, after `t` fault-free clock edges exactly
/// `t - 3` instructions have retired (none before the fourth edge), one per
/// edge, up to and including a halt.
pub proof fn law_one_instruction_per_cycle(p0: ProcV, m0: MemGuard, p1: ProcV, m1: MemGuard, t: nat)
    requires
        p0.if_id is None && p0.id_ex is None && p0.ex_wb is None && !p0.halt_pending,
        runs(p0, m0, p1, m1, t),
        p0.completed_instrs + t <= u64::MAX,
    ensures
        p1.completed_instrs == p0.completed_instrs + if t >= 3 {
            t - 3
        } else {
            0
        },
{
    let tr = choose|tr: Seq<(ProcV, MemGuard)>|
        #[trigger] trace_ok(tr, t) && tr[0] == (p0, m0) && tr[t as int] == (p1, m1);
    lemma_runs_occupancy(tr, t, t);
}

} // verus!
