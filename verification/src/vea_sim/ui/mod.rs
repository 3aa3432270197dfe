//! The interactive view: its state and key handling (`app`), the text it
//! shows (`view`), and the decisions of the event loop, which carries out
//! the `Action` each keystroke produces against the simulator.
pub mod app;
pub mod view;

use crate::vea_sim::error::Result;
use crate::vea_sim::memory::{MemGuard, in_space};
use crate::vea_sim::onestep::{OneV, Processor, runs, snapshot_of, step_spec};
use crate::vea_sim::shared::Shared;
use app::{Action, App};
use vstd::prelude::*;

verus! {

/// Instructions advanced per free-run frame before the loop returns to
/// repaint and poll input.
pub const RUN_BATCH: u64 = 4096;

/// Re-load the original image and hand back a fresh processor at the entry
/// point: memory is cleared and the image written at `load_addr`; on success
/// the processor is reset to `load_addr` and published.
pub fn reload(cpu: &mut Processor, mem: &mut MemGuard, shared: &mut Shared, image: &[u8], load_addr: u64) -> (r: Result<()>)
    requires
        old(mem).wf(),
    ensures
        final(mem).wf(),
        r is Ok <==> in_space(load_addr as int, image@.len() as int),
        forall|a: int|
            0 <= a <= u64::MAX ==> #[trigger] final(mem).byte(a) == if r is Ok && load_addr <= a < load_addr
                + image@.len() {
                image@[a - load_addr]
            } else {
                0
            },
        r is Ok ==> {
            &&& final(cpu)@.pc == load_addr && final(cpu)@.completed_instrs == 0 && !final(cpu)@.halted
            &&& final(cpu)@.regs == Seq::new(crate::vea_sim::isa::NUM_REGS as nat, |i: int| 0u64)
            &&& !final(cpu)@.z && !final(cpu)@.n && !final(cpu)@.c && !final(cpu)@.v
            &&& snapshot_of(final(cpu)@, final(shared).snapshot)
            &&& final(shared).snapshot.fault is None
        },
        r is Err ==> *final(cpu) == *old(cpu) && *final(shared) == *old(shared),
{
    mem.clear();
    mem.load(load_addr, image)?;
    *cpu = Processor::new();
    cpu.pc = load_addr;
    cpu.publish(shared);
    Ok(())
}

/// Carry out one key's action. Returns whether the loop should quit; `Step`
/// runs up to `n` instructions (a fault is shown, not returned), `ToggleRun`
/// starts free-running unless the machine has halted, `Reload` reloads and
/// pauses.
pub fn handle_action(
    app: &mut App,
    cpu: &mut Processor,
    mem: &mut MemGuard,
    shared: &mut Shared,
    action: Action,
    image: &[u8],
    load_addr: u64,
) -> (r: Result<bool>)
    requires
        old(mem).wf(),
        action matches Action::Step(n) ==> old(cpu).completed_instrs + n <= u64::MAX,
    ensures
        final(mem).wf(),
        r matches Ok(quit) ==> quit == (action == Action::Quit),
        action is Quit || action is Nothing ==> r is Ok && *final(cpu) == *old(cpu) && *final(mem)
            == *old(mem) && final(app)@ == old(app)@,
        action matches Action::Step(n) ==> {
            &&& r is Ok
            &&& final(app)@ == old(app)@
            &&& final(shared).snapshot.fault is None ==> exists|k: nat|
                k <= n && #[trigger] runs(old(cpu)@, *old(mem), final(cpu)@, *final(mem), k) && (k == n
                    || final(cpu).halted)
            &&& final(shared).snapshot.fault is Some ==> exists|k: nat|
                k < n && #[trigger] runs(old(cpu)@, *old(mem), final(cpu)@, *final(mem), k)
                    && !final(cpu).halted && step_spec(final(cpu)@, *final(mem)) is None
            &&& snapshot_of(final(cpu)@, final(shared).snapshot)
        },
        action is ToggleRun ==> r is Ok && *final(cpu) == *old(cpu) && *final(mem) == *old(mem)
            && final(app)@ == (app::AppV { running: !old(app).running && !old(cpu).halted, ..old(app)@ }),
        action is Reload ==> {
            &&& r is Ok <==> in_space(load_addr as int, image@.len() as int)
            &&& r is Ok ==> final(cpu)@.pc == load_addr && final(cpu)@.completed_instrs == 0
                && !final(cpu)@.halted
            &&& r is Ok ==> final(cpu)@.regs == Seq::new(crate::vea_sim::isa::NUM_REGS as nat, |i: int| 0u64)
            &&& r is Ok ==> !final(cpu)@.z && !final(cpu)@.n && !final(cpu)@.c && !final(cpu)@.v
            &&& r is Ok ==> snapshot_of(final(cpu)@, final(shared).snapshot) && final(shared).snapshot.fault is None
            &&& r is Ok ==> forall|a: int|
                0 <= a <= u64::MAX ==> #[trigger] final(mem).byte(a) == if load_addr <= a < load_addr
                    + image@.len() {
                    image@[a - load_addr]
                } else {
                    0
                }
            &&& r is Ok ==> final(app)@ == (app::AppV { running: false, ..old(app)@ })
            &&& r is Err ==> *final(cpu) == *old(cpu) && *final(shared) == *old(shared) && final(app)@
                == old(app)@
        },
{
    match action {
        Action::Quit => Ok(true),
        Action::Step(n) => {
            let _ = cpu.cycle(mem, shared, n);
            Ok(false)
        },
        Action::ToggleRun => {
            app.running = !app.running && !cpu.halted();
            Ok(false)
        },
        Action::Reload => {
            reload(cpu, mem, shared, image, load_addr)?;
            app.running = false;
            Ok(false)
        },
        Action::Nothing => Ok(false),
    }
}

/// One frame of free-running: while running, advance a batch of
/// instructions, and stop running on a fault or a halt.
pub fn free_run(app: &mut App, cpu: &mut Processor, mem: &mut MemGuard, shared: &mut Shared)
    requires
        old(mem).wf(),
        old(cpu).completed_instrs + RUN_BATCH <= u64::MAX,
    ensures
        final(mem).wf(),
        !old(app).running ==> *final(cpu) == *old(cpu) && *final(mem) == *old(mem) && final(app)@ == old(app)@,
        old(app).running ==> {
            &&& final(app)@ == (app::AppV {
                running: final(shared).snapshot.fault is None && !final(cpu).halted,
                ..old(app)@
            })
            &&& final(shared).snapshot.fault is None ==> exists|k: nat|
                k <= RUN_BATCH && #[trigger] runs(old(cpu)@, *old(mem), final(cpu)@, *final(mem), k) && (k
                    == RUN_BATCH || final(cpu).halted)
            &&& final(shared).snapshot.fault is Some ==> exists|k: nat|
                k < RUN_BATCH && #[trigger] runs(old(cpu)@, *old(mem), final(cpu)@, *final(mem), k)
                    && !final(cpu).halted && step_spec(final(cpu)@, *final(mem)) is None
            &&& snapshot_of(final(cpu)@, final(shared).snapshot)
        },
{
    if app.running {
        if cpu.cycle(mem, shared, RUN_BATCH).is_err() || cpu.halted() {
            app.running = false;
        }
    }
}

} // verus!
