//! The bridge between the simulator and the interactive UI: a plain-data
//! snapshot of the machine that the simulators publish after every `cycle`
//! and the UI reads back when it draws, plus the loaded program. Neither
//! side hands the other any of its own types.
use crate::vea_sim::assembler::ListingRow;
use crate::vea_sim::isa::NUM_REGS;
use vstd::prelude::*;

verus! {

/// The four architectural condition-code bits, unpacked for the UI.
#[derive(Clone, Copy, Debug, PartialEq, Eq)]
pub struct Flags {
    pub z: bool,
    pub n: bool,
    pub c: bool,
    pub v: bool,
}

impl Flags {
    /// Every flag clear.
    pub fn clear() -> (f: Flags)
        ensures
            !f.z && !f.n && !f.c && !f.v,
    {
        Flags { z: false, n: false, c: false, v: false }
    }
}

/// What one pipeline latch holds, for display: the address of the
/// instruction in it and a short description.
#[derive(Clone, Debug)]
pub struct StageSlot {
    pub pc: u64,
    pub desc: String,
}

/// The latches of the pipelined simulator.
#[derive(Clone, Debug)]
pub struct Pipeline {
    pub if_id: Option<StageSlot>,
    pub id_ex: Option<StageSlot>,
    pub ex_wb: Option<StageSlot>,
}

/// Everything the UI shows about the running machine.
#[derive(Clone, Debug)]
pub struct Snapshot {
    pub pc: u64,
    pub regs: [u64; NUM_REGS],
    pub flags: Flags,
    pub completed_instrs: u64,
    pub cycles: u64,
    pub halted: bool,
    /// Set when the last `cycle` ended on a fault; carries the message.
    pub fault: Option<String>,
    /// The pipeline latches, when the publishing simulator has any.
    pub pipeline: Option<Pipeline>,
}

impl Snapshot {
    /// The machine before anything ran.
    pub fn initial() -> (s: Snapshot)
        ensures
            s.pc == 0,
            forall|i: int| 0 <= i < NUM_REGS ==> s.regs[i] == 0,
            !s.flags.z && !s.flags.n && !s.flags.c && !s.flags.v,
            s.completed_instrs == 0,
            s.cycles == 0,
            !s.halted,
            s.fault is None,
            s.pipeline is None,
    {
        Snapshot {
            pc: 0,
            regs: [0u64; NUM_REGS],
            flags: Flags::clear(),
            completed_instrs: 0,
            cycles: 0,
            halted: false,
            fault: None,
            pipeline: None,
        }
    }
}

/// The whole shared state: the loaded program plus the latest snapshot.
pub struct Shared {
    /// Bumped on every change so the UI can skip redraws when nothing changed.
    pub generation: u64,
    pub snapshot: Snapshot,
    pub program: Vec<ListingRow>,
    pub load_addr: u64,
    /// Path the program was loaded from, for the UI to label.
    pub source: Option<String>,
}

impl Shared {
    /// Nothing loaded, nothing run.
    pub fn new() -> (s: Shared)
        ensures
            s.generation == 0,
            s.snapshot.pc == 0 && s.snapshot.completed_instrs == 0 && !s.snapshot.halted,
            forall|i: int| 0 <= i < NUM_REGS ==> s.snapshot.regs[i] == 0,
            !s.snapshot.flags.z && !s.snapshot.flags.n && !s.snapshot.flags.c && !s.snapshot.flags.v,
            s.snapshot.cycles == 0,
            s.snapshot.fault is None,
            s.snapshot.pipeline is None,
            s.program@.len() == 0,
            s.load_addr == 0,
            s.source is None,
    {
        Shared {
            generation: 0,
            snapshot: Snapshot::initial(),
            program: Vec::new(),
            load_addr: 0,
            source: None,
        }
    }

    /// Replace the published machine snapshot.
    pub fn publish(&mut self, snapshot: Snapshot)
        ensures
            final(self).generation == old(self).generation.wrapping_add(1),
            final(self).snapshot == snapshot,
            final(self).program == old(self).program,
            final(self).load_addr == old(self).load_addr,
            final(self).source == old(self).source,
    {
        self.generation = self.generation.wrapping_add(1);
        self.snapshot = snapshot;
    }

    /// Install a freshly assembled program, the address it was loaded at, and
    /// the path it came from.
    pub fn install_program(&mut self, program: Vec<ListingRow>, load_addr: u64, source: String)
        ensures
            final(self).generation == old(self).generation.wrapping_add(1),
            final(self).snapshot == old(self).snapshot,
            final(self).program == program,
            final(self).load_addr == load_addr,
            final(self).source == Some(source),
    {
        self.generation = self.generation.wrapping_add(1);
        self.program = program;
        self.load_addr = load_addr;
        self.source = Some(source);
    }
}

} // verus!
