//! The pipelined simulator. Where `onestep` retires one whole instruction per
//! call, `nstep` models an in-order pipeline: several instructions are in
//! flight at once and `tick` advances the machine by a single clock edge.
//! Fetch, Decode, Execute and Writeback run back to front, so each reads the
//! latch the stage ahead of it left last cycle before it is overwritten.
pub mod execute;
pub mod decode;
pub mod fetch;
pub mod writeback;
pub mod icache;
pub mod timing;
pub mod laws;

use crate::text;
use crate::vea_sim::error::{Error, Msg, Result};
use crate::vea_sim::isa::{self, ConditionCodes, ALIGNMENT, MAX_INSN_BYTES, NUM_REGS};
use crate::vea_sim::memory::MemGuard;
use crate::vea_sim::shared::{Flags, Pipeline, Shared, Snapshot, StageSlot};
use vstd::prelude::*;

verus! {

/// The pipeline stages in program order.
#[derive(Clone, Copy, PartialEq, Eq, Debug)]
pub enum Stage {
    Fetch,
    Decode,
    Execute,
    Memory,
    Writeback,
}

/// The IF/ID latch: a whole frame (only the leading frame-length bytes are
/// this instruction; the rest is lookahead).
#[derive(Clone, Copy, Debug)]
pub struct IfId {
    pub pc: u64,
    pub bytes: [u8; MAX_INSN_BYTES],
}

/// The ID/EX latch. Registers and condition codes have already been read.
#[derive(Clone, Copy, Debug)]
pub struct IdEx {
    pub pc: u64,
    pub op: DecodedOp,
}

/// One decoded instruction, operands and all.
#[derive(Clone, Copy, Debug, PartialEq, Eq)]
pub enum DecodedOp {
    Nop,
    Halt,
    Mov { rd: usize, src: i64 },
    Not { rd: usize, src: i64 },
    Cmp { a: i64, b: i64, signed: bool },
    Alu { rd: usize, nibble: u8, a: i64, b: i64 },
    /// both b* and jmp resolve here
    Branch { taken: bool, target: u64 },
    Load { rd: usize, addr: u64, width: usize, sext: bool },
    Store { addr: u64, width: usize, value: u64 },
    Trap { vector: u64 },
}

/// The EX/WB latch: what Writeback still has to apply.
#[derive(Clone, Copy, Debug)]
pub struct ExWb {
    pub pc: u64,
    pub commit: Commit,
}

/// What Writeback commits.
#[derive(Clone, Copy, Debug, PartialEq, Eq)]
pub enum Commit {
    Nothing,
    Reg { rd: usize, value: i64 },
    Flags { z: bool, n: bool, c: bool, v: bool },
    Halt,
}

/// The pipelined processor.
pub struct Processor {
    pub pc: u64,
    pub cycles: u64,
    pub completed_instrs: u64,
    pub halted: bool,
    pub regs: [u64; NUM_REGS],
    pub cc: ConditionCodes,
    pub if_id: Option<IfId>,
    pub id_ex: Option<IdEx>,
    pub ex_wb: Option<ExWb>,
    /// Set the moment Decode sees a halt: Fetch stops feeding the pipe, but
    /// `halted` only flips when the halt commits in Writeback.
    pub halt_pending: bool,
}

/// The processor's state in spec form.
pub struct ProcV {
    pub pc: u64,
    pub cycles: u64,
    pub completed_instrs: u64,
    pub halted: bool,
    pub regs: Seq<u64>,
    pub z: bool,
    pub n: bool,
    pub c: bool,
    pub v: bool,
    pub if_id: Option<(u64, Seq<u8>)>,
    pub id_ex: Option<IdEx>,
    pub ex_wb: Option<ExWb>,
    pub halt_pending: bool,
}

impl View for Processor {
    type V = ProcV;

    open spec fn view(&self) -> ProcV {
        ProcV {
            pc: self.pc,
            cycles: self.cycles,
            completed_instrs: self.completed_instrs,
            halted: self.halted,
            regs: self.regs@,
            z: self.cc.spec_zero(),
            n: self.cc.spec_neg(),
            c: self.cc.spec_carry(),
            v: self.cc.spec_overflow(),
            if_id: match self.if_id {
                None => None,
                Some(f) => Some((f.pc, f.bytes@)),
            },
            id_ex: self.id_ex,
            ex_wb: self.ex_wb,
            halt_pending: self.halt_pending,
        }
    }
}

/// The register an operation writes, if any.
pub open spec fn op_reg(op: DecodedOp) -> Option<usize> {
    match op {
        DecodedOp::Mov { rd, .. } => Some(rd),
        DecodedOp::Not { rd, .. } => Some(rd),
        DecodedOp::Alu { rd, .. } => Some(rd),
        DecodedOp::Load { rd, .. } => Some(rd),
        _ => None,
    }
}

/// Every register named in a latch is a real register.
pub open spec fn latches_wf(s: ProcV) -> bool {
    &&& s.regs.len() == NUM_REGS
    &&& (s.id_ex matches Some(l) ==> (op_reg(l.op) matches Some(r) ==> r < NUM_REGS))
    &&& (s.ex_wb matches Some(l) ==> (l.commit matches Commit::Reg { rd, .. } ==> rd < NUM_REGS))
    &&& (s.if_id matches Some((_, b)) ==> b.len() == MAX_INSN_BYTES)
}

/// Byte length of the frame whose opinfo byte is `opinfo`; `None` below 2.
pub open spec fn frame_len_spec(opinfo: u8) -> Option<nat> {
    if isa::spec_insn_len(opinfo) < 2 {
        None
    } else {
        Some(isa::spec_insn_len(opinfo) as nat)
    }
}

/// The fault message for a frame shorter than two bytes.
pub open spec fn frame_len_msg(b: Seq<u8>) -> Seq<char> {
    "frame length "@ + text::digits(isa::spec_insn_len(b[1]) as nat, 10) + " is less than 2 for opcode "@
        + seq!['0', 'x'] + text::zero_pad(text::digits(b[0] as nat, 16), 2)
}

/// Byte length of the instruction frame at `bytes[0]`, from the high nibble
/// of its opinfo byte. A frame has at least its opcode and opinfo bytes.
pub fn frame_len(bytes: &[u8]) -> (r: Result<u64>)
    requires
        bytes@.len() >= 2,
    ensures
        match frame_len_spec(bytes@[1]) {
            Some(n) => r matches Ok(x) && x == n,
            None => r is Err,
        },
        r matches Err(e) ==> e.0@ == frame_len_msg(bytes@),
{
    let len = isa::insn_len(bytes[1]);
    if len < 2 {
        let mut m = Msg::new("frame length ");
        m.dec(len as u64);
        m.lit(" is less than 2 for opcode ");
        m.hex(bytes[0] as u64, 2);
        return Err(m.error());
    }
    Ok(len as u64)
}

impl Processor {
    /// A reset machine: everything zero, the pipe empty.
    pub fn new() -> (p: Processor)
        ensures
            p@.pc == 0 && p@.cycles == 0 && p@.completed_instrs == 0,
            !p@.halted && !p@.halt_pending,
            p@.regs == Seq::new(NUM_REGS as nat, |i: int| 0u64),
            !p@.z && !p@.n && !p@.c && !p@.v,
            p@.if_id is None && p@.id_ex is None && p@.ex_wb is None,
            latches_wf(p@),
    {
        let p = Processor {
            pc: 0,
            cycles: 0,
            completed_instrs: 0,
            halted: false,
            regs: [0u64; NUM_REGS],
            cc: ConditionCodes::reset(),
            if_id: None,
            id_ex: None,
            ex_wb: None,
            halt_pending: false,
        };
        assert(p@.regs =~= Seq::new(NUM_REGS as nat, |i: int| 0u64));
        p
    }

    /// Whether a halt has committed.
    pub fn halted(&self) -> (b: bool)
        ensures
            b == self.halted,
    {
        self.halted
    }
}

/// `0x`-prefixed lower-case hex of `v`.
pub open spec fn hex_text(v: u64) -> Seq<char> {
    seq!['0', 'x'] + text::digits(v as nat, 16)
}

/// A short symbol for an ALU op's nibble, for display.
pub open spec fn alu_symbol_spec(nibble: u8) -> Seq<char> {
    if nibble == 0x0 {
        "+"@
    } else if nibble == 0x1 {
        "-"@
    } else if nibble == 0x2 {
        "&"@
    } else if nibble == 0x3 {
        "|"@
    } else if nibble == 0x5 {
        "^"@
    } else if nibble == 0x6 {
        "<<"@
    } else if nibble == 0x7 {
        ">>"@
    } else if nibble == 0x8 {
        ">>a"@
    } else if nibble == 0x9 {
        "*"@
    } else if nibble == 0xA {
        "/"@
    } else {
        "?"@
    }
}

/// A short symbol for an ALU op's nibble, for display.
pub fn alu_symbol(nibble: u8) -> (s: &'static str)
    ensures
        s@ == alu_symbol_spec(nibble),
{
    if nibble == 0x0 {
        "+"
    } else if nibble == 0x1 {
        "-"
    } else if nibble == 0x2 {
        "&"
    } else if nibble == 0x3 {
        "|"
    } else if nibble == 0x5 {
        "^"
    } else if nibble == 0x6 {
        "<<"
    } else if nibble == 0x7 {
        ">>"
    } else if nibble == 0x8 {
        ">>a"
    } else if nibble == 0x9 {
        "*"
    } else if nibble == 0xA {
        "/"
    } else {
        "?"
    }
}

/// How the ID/EX pane shows a decoded instruction.
pub open spec fn op_text(op: DecodedOp) -> Seq<char> {
    match op {
        DecodedOp::Nop => "nop"@,
        DecodedOp::Halt => "halt"@,
        DecodedOp::Mov { rd, src } => "r"@ + text::digits(rd as nat, 10) + " <- "@ + hex_text(
            src as u64,
        ),
        DecodedOp::Not { rd, src } => "r"@ + text::digits(rd as nat, 10) + " <- !"@ + hex_text(
            src as u64,
        ),
        DecodedOp::Cmp { a, b, signed } => "cmp"@ + (if signed {
            ".s"@
        } else {
            ""@
        }) + " "@ + hex_text(a as u64) + ", "@ + hex_text(b as u64),
        DecodedOp::Alu { rd, nibble, a, b } => "r"@ + text::digits(rd as nat, 10) + " <- "@
            + hex_text(a as u64) + " "@ + alu_symbol_spec(nibble) + " "@ + hex_text(b as u64),
        DecodedOp::Branch { taken, target } => "-> "@ + hex_text(target) + " ("@ + (if taken {
            "taken"@
        } else {
            "not taken"@
        }) + ")"@,
        DecodedOp::Load { rd, addr, width, sext } => "r"@ + text::digits(rd as nat, 10) + " <- ["@
            + hex_text(addr) + "]"@ + (if sext {
            " sext"@
        } else {
            ""@
        }) + " ("@ + text::digits(width as nat, 10) + "B)"@,
        DecodedOp::Store { addr, width, value } => "["@ + hex_text(addr) + "] <- "@ + hex_text(
            value,
        ) + " ("@ + text::digits(width as nat, 10) + "B)"@,
        DecodedOp::Trap { vector } => "trap "@ + hex_text(vector),
    }
}

/// How the EX/WB pane shows what is about to commit.
pub open spec fn commit_text(c: Commit) -> Seq<char> {
    match c {
        Commit::Nothing => seq!['\u{2014}'],
        Commit::Reg { rd, value } => "r"@ + text::digits(rd as nat, 10) + " <- "@ + hex_text(
            value as u64,
        ),
        Commit::Flags { z, n, c, v } => "flags z"@ + bit_text(z) + " n"@ + bit_text(n) + " c"@
            + bit_text(c) + " v"@ + bit_text(v),
        Commit::Halt => "halt"@,
    }
}

/// `1` or `0`.
pub open spec fn bit_text(b: bool) -> Seq<char> {
    if b {
        seq!['1']
    } else {
        seq!['0']
    }
}

fn push_bit(m: &mut Msg, b: bool)
    ensures
        final(m).chars@ == old(m).chars@ + bit_text(b),
{
    if b {
        m.chars.push('1');
    } else {
        m.chars.push('0');
    }
}

impl DecodedOp {
    /// A short description for the pipeline pane, not a disassembly.
    pub fn describe(&self) -> (s: String)
        ensures
            s@ == op_text(*self),
    {
        let mut m = Msg::new("");
        match *self {
            DecodedOp::Nop => m.lit("nop"),
            DecodedOp::Halt => m.lit("halt"),
            DecodedOp::Mov { rd, src } => {
                m.lit("r");
                m.dec(rd as u64);
                m.lit(" <- ");
                m.hex(src as u64, 0);
            },
            DecodedOp::Not { rd, src } => {
                m.lit("r");
                m.dec(rd as u64);
                m.lit(" <- !");
                m.hex(src as u64, 0);
            },
            DecodedOp::Cmp { a, b, signed } => {
                m.lit("cmp");
                m.lit(
                    if signed {
                        ".s"
                    } else {
                        ""
                    },
                );
                m.lit(" ");
                m.hex(a as u64, 0);
                m.lit(", ");
                m.hex(b as u64, 0);
            },
            DecodedOp::Alu { rd, nibble, a, b } => {
                m.lit("r");
                m.dec(rd as u64);
                m.lit(" <- ");
                m.hex(a as u64, 0);
                m.lit(" ");
                m.lit(alu_symbol(nibble));
                m.lit(" ");
                m.hex(b as u64, 0);
            },
            DecodedOp::Branch { taken, target } => {
                m.lit("-> ");
                m.hex(target, 0);
                m.lit(" (");
                m.lit(
                    if taken {
                        "taken"
                    } else {
                        "not taken"
                    },
                );
                m.lit(")");
            },
            DecodedOp::Load { rd, addr, width, sext } => {
                m.lit("r");
                m.dec(rd as u64);
                m.lit(" <- [");
                m.hex(addr, 0);
                m.lit("]");
                m.lit(
                    if sext {
                        " sext"
                    } else {
                        ""
                    },
                );
                m.lit(" (");
                m.dec(width as u64);
                m.lit("B)");
            },
            DecodedOp::Store { addr, width, value } => {
                m.lit("[");
                m.hex(addr, 0);
                m.lit("] <- ");
                m.hex(value, 0);
                m.lit(" (");
                m.dec(width as u64);
                m.lit("B)");
            },
            DecodedOp::Trap { vector } => {
                m.lit("trap ");
                m.hex(vector, 0);
            },
        }
        proof {
            reveal_strlit("");
        }
        assert(m.chars@ =~= op_text(*self));
        m.string()
    }
}

impl Commit {
    /// A short description for the pipeline pane.
    pub fn describe(&self) -> (s: String)
        ensures
            s@ == commit_text(*self),
    {
        let mut m = Msg::new("");
        match *self {
            Commit::Nothing => m.chars.push('\u{2014}'),
            Commit::Reg { rd, value } => {
                m.lit("r");
                m.dec(rd as u64);
                m.lit(" <- ");
                m.hex(value as u64, 0);
            },
            Commit::Flags { z, n, c, v } => {
                m.lit("flags z");
                push_bit(&mut m, z);
                m.lit(" n");
                push_bit(&mut m, n);
                m.lit(" c");
                push_bit(&mut m, c);
                m.lit(" v");
                push_bit(&mut m, v);
            },
            Commit::Halt => m.lit("halt"),
        }
        proof {
            reveal_strlit("");
        }
        assert(m.chars@ =~= commit_text(*self));
        m.string()
    }
}

/// One clock edge: Writeback, Execute, Decode, Fetch, in that order, then
/// one more cycle counted. `m0` is memory before the edge and `m1` after it
/// (Fetch reads `m1`, which already holds what Execute stored). `None` when
/// the machine has halted or a stage faults.
pub open spec fn tick_spec(s: ProcV, m0: MemGuard, m1: MemGuard) -> Option<ProcV> {
    if s.halted {
        None
    } else {
        let s1 = writeback::writeback_spec(s);
        match execute::execute_spec(s1, m0) {
            None => None,
            Some(s2) => match decode::decode_stage_spec(s2) {
                None => None,
                Some(s3) => match fetch::fetch_spec(s3, m1) {
                    None => None,
                    Some(s4) => Some(ProcV { cycles: (s4.cycles + 1) as u64, ..s4 }),
                },
            },
        }
    }
}

/// The state a faulting clock edge leaves behind: a halted machine is left
/// as it is; otherwise Writeback has committed, and the stage that faulted
/// has emptied the latch it read (ID/EX for Execute, IF/ID for Decode and
/// Fetch) while the stages after it have not run.
pub open spec fn tick_fault_spec(s: ProcV, m0: MemGuard) -> ProcV {
    if s.halted {
        s
    } else {
        let s1 = writeback::writeback_spec(s);
        match execute::execute_spec(s1, m0) {
            None => ProcV { id_ex: None, ..s1 },
            Some(s2) => match decode::decode_stage_spec(s2) {
                None => ProcV { if_id: None, ..s2 },
                Some(s3) => ProcV { if_id: None, ..s3 },
            },
        }
    }
}

/// The fault message of a clock edge that faults: a halted machine, or the
/// message of the first stage that faults (Execute, Decode, then Fetch).
pub open spec fn tick_fault_msg(s: ProcV, m0: MemGuard, m1: MemGuard) -> Seq<char> {
    if s.halted {
        "tick() called while the simulator is halted"@
    } else {
        match execute::execute_spec(writeback::writeback_spec(s), m0) {
            None => execute::run_fault_msg(s.id_ex.unwrap().pc, s.id_ex.unwrap().op),
            Some(s2) => match decode::decode_stage_spec(s2) {
                None => decode::decode_err(s2.if_id.unwrap().0, s2.if_id.unwrap().1),
                Some(s3) => fetch::fetch_fault_msg(s3, m1),
            },
        }
    }
}

/// The misaligned address Fetch is pointed at on this edge, when the stages
/// ahead of it go through and no halt is pending.
pub open spec fn misaligned_fetch_of(s: ProcV, m0: MemGuard) -> Option<u64> {
    if s.halted {
        None
    } else {
        match execute::execute_spec(writeback::writeback_spec(s), m0) {
            None => None,
            Some(s2) => match decode::decode_stage_spec(s2) {
                Some(s3) => if !s3.halt_pending && s3.pc % ALIGNMENT != 0 {
                    Some(s3.pc)
                } else {
                    None
                },
                None => None,
            },
        }
    }
}

/// What one clock edge does to memory: whatever its Execute stage does.
pub open spec fn tick_mem(s: ProcV, m0: MemGuard, m1: MemGuard) -> bool {
    execute::execute_mem(writeback::writeback_spec(s), m0, m1)
}

/// A trace of `k` clock edges, each without a fault: state and memory
/// before the first edge, then after each one.
pub open spec fn trace_ok(tr: Seq<(ProcV, MemGuard)>, k: nat) -> bool {
    &&& tr.len() == k + 1
    &&& forall|i: int|
        0 <= i < k ==> tick_spec(#[trigger] tr[i].0, tr[i].1, tr[i + 1].1) == Some(tr[i + 1].0)
            && tick_mem(tr[i].0, tr[i].1, tr[i + 1].1)
}

/// `k` clock edges, each without a fault, lead from `(s0, m0)` to `(s1, m1)`.
pub open spec fn runs(s0: ProcV, m0: MemGuard, s1: ProcV, m1: MemGuard, k: nat) -> bool {
    exists|tr: Seq<(ProcV, MemGuard)>|
        #[trigger] trace_ok(tr, k) && tr[0] == (s0, m0) && tr[k as int] == (s1, m1)
}

impl Processor {
    /// One clock cycle.
    pub fn tick(&mut self, mem: &mut MemGuard) -> (r: Result<()>)
        requires
            old(mem).wf(),
            latches_wf(old(self)@),
            old(self).cycles < u64::MAX,
            old(self).completed_instrs < u64::MAX,
        ensures
            final(mem).wf(),
            match tick_spec(old(self)@, *old(mem), *final(mem)) {
                Some(s) => r is Ok && final(self)@ == s,
                None => r is Err,
            },
            r is Ok ==> tick_mem(old(self)@, *old(mem), *final(mem)),
            r is Ok ==> latches_wf(final(self)@),
            r is Ok ==> final(self).completed_instrs <= old(self).completed_instrs + 1,
            r is Err ==> final(self)@ == tick_fault_spec(old(self)@, *old(mem)),
            misaligned_fetch_of(old(self)@, *old(mem)) matches Some(pc) ==> (r matches Err(e) && e.0@
                == fetch::misaligned_fetch_msg(pc)),
            r matches Err(e) ==> e.0@ == tick_fault_msg(old(self)@, *old(mem), *final(mem)),
    {
        if self.halted {
            return Err(Msg::new("tick() called while the simulator is halted").error());
        }
        self.writeback();
        self.execute(mem)?;
        self.decode()?;
        self.fetch(mem)?;
        self.cycles += 1;
        Ok(())
    }

    /// Advance up to `clocks` cycles, stopping early on a halt or a fault,
    /// then publish the machine state (with the fault message, if any).
    pub fn cycle(&mut self, mem: &mut MemGuard, shared: &mut Shared, clocks: u64) -> (r: Result<()>)
        requires
            old(mem).wf(),
            latches_wf(old(self)@),
            old(self).cycles + clocks <= u64::MAX,
            old(self).completed_instrs + clocks <= u64::MAX,
        ensures
            final(mem).wf(),
            r is Ok ==> exists|k: nat|
                k <= clocks && #[trigger] runs(old(self)@, *old(mem), final(self)@, *final(mem), k)
                    && (k == clocks || final(self).halted),
            r is Err ==> exists|k: nat, s: ProcV, m: MemGuard|
                #![trigger runs(old(self)@, *old(mem), s, m, k)]
                {
                    &&& k < clocks
                    &&& runs(old(self)@, *old(mem), s, m, k)
                    &&& !s.halted
                    &&& tick_spec(s, m, *final(mem)) is None
                    &&& final(self)@ == tick_fault_spec(s, m)
                    &&& misaligned_fetch_of(s, m) matches Some(pc) ==> (r matches Err(e) && e.0@
                        == fetch::misaligned_fetch_msg(pc))
                    &&& r matches Err(e) ==> e.0@ == tick_fault_msg(s, m, *final(mem))
                },
            final(shared).snapshot.fault is Some <==> r is Err,
            r matches Err(e) ==> (final(shared).snapshot.fault matches Some(f) && f@ == e.0@),
            snapshot_of(final(self)@, final(shared).snapshot),
    {
        let ghost s0 = self@;
        let ghost m0 = *mem;
        let ghost mut tr: Seq<(ProcV, MemGuard)> = seq![(s0, m0)];
        let mut k: u64 = 0;
        let mut outcome: Result<()> = Ok(());
        while k < clocks
            invariant_except_break
                latches_wf(self@),
                self.cycles == s0.cycles + k,
                self.completed_instrs <= s0.completed_instrs + k,
                outcome is Ok,
                trace_ok(tr, k as nat),
                tr[0] == (s0, m0),
                tr[k as int] == (self@, *mem),
            invariant
                mem.wf(),
                k <= clocks,
                s0.cycles + clocks <= u64::MAX,
                s0.completed_instrs + clocks <= u64::MAX,
            ensures
                mem.wf(),
                trace_ok(tr, k as nat) && tr[0] == (s0, m0),
                outcome is Ok ==> tr[k as int] == (self@, *mem) && (k == clocks || self.halted),
                outcome is Err ==> k < clocks && tick_spec(tr[k as int].0, tr[k as int].1, *mem) is None
                    && !tr[k as int].0.halted && self@ == tick_fault_spec(tr[k as int].0, tr[k as int].1)
                    && (misaligned_fetch_of(tr[k as int].0, tr[k as int].1) matches Some(pc) ==> (
                    outcome matches Err(e) && e.0@ == fetch::misaligned_fetch_msg(pc))),
                outcome matches Err(e) ==> e.0@ == tick_fault_msg(tr[k as int].0, tr[k as int].1, *mem),
            decreases clocks - k,
        {
            if self.halted {
                break;
            }
            let ghost sp = self@;
            let ghost mp = *mem;
            match self.tick(mem) {
                Ok(()) => {},
                Err(e) => {
                    outcome = Err(e);
                    break;
                },
            }
            proof {
                let t2 = tr.push((self@, *mem));
                assert forall|i: int| 0 <= i < k + 1 implies tick_spec(
                    #[trigger] t2[i].0,
                    t2[i].1,
                    t2[i + 1].1,
                ) == Some(t2[i + 1].0) && tick_mem(t2[i].0, t2[i].1, t2[i + 1].1) by {
                    if i < k {
                        assert(t2[i] == tr[i] && t2[i + 1] == tr[i + 1]);
                    } else {
                        assert(t2[i] == tr[k as int]);
                        assert(t2[i + 1] == (self@, *mem));
                    }
                }
                tr = t2;
            }
            k += 1;
        }
        let fault = match &outcome {
            Ok(()) => None,
            Err(e) => Some(e.to_string()),
        };
        assert(outcome is Ok ==> runs(s0, m0, self@, *mem, k as nat));
        assert(outcome is Err ==> runs(s0, m0, tr[k as int].0, tr[k as int].1, k as nat));
        let snap = self.snapshot(fault);
        shared.publish(snap);
        outcome
    }

    /// The architectural state as the UI sees it, with the pipeline latches.
    pub fn snapshot(&self, fault: Option<String>) -> (s: Snapshot)
        ensures
            snapshot_of(self@, s),
            s.fault == fault,
            s.pipeline is Some,
    {
        Snapshot {
            pc: self.pc,
            regs: self.regs,
            flags: Flags {
                z: self.cc.zero(),
                n: self.cc.neg(),
                c: self.cc.carry(),
                v: self.cc.overflow(),
            },
            completed_instrs: self.completed_instrs,
            cycles: self.cycles,
            halted: self.halted,
            fault,
            pipeline: Some(self.pipeline()),
        }
    }

    /// Copy the architectural state onto the shared bus the UI renders from.
    pub fn publish(&self, shared: &mut Shared)
        ensures
            snapshot_of(self@, final(shared).snapshot),
            final(shared).snapshot.fault is None,
            final(shared).generation == old(shared).generation.wrapping_add(1),
    {
        let snap = self.snapshot(None);
        shared.publish(snap);
    }

    /// What sits in each latch right now, for the pipeline pane. IF/ID is not
    /// decoded yet, so it shows the frame's bytes.
    pub fn pipeline(&self) -> (p: Pipeline)
        ensures
            match self.if_id {
                None => p.if_id is None,
                Some(f) => match frame_len_spec(f.bytes@[1]) {
                    Some(len) => if len <= MAX_INSN_BYTES {
                        p.if_id matches Some(slot) && slot.pc == f.pc && slot.desc@
                            == crate::vea_sim::assembler::hex_spec(f.bytes@.take(len as int))
                    } else {
                        p.if_id is None
                    },
                    None => p.if_id is None,
                },
            },
            match self.id_ex {
                None => p.id_ex is None,
                Some(l) => p.id_ex matches Some(slot) && slot.pc == l.pc && slot.desc@ == op_text(
                    l.op,
                ),
            },
            match self.ex_wb {
                None => p.ex_wb is None,
                Some(l) => p.ex_wb matches Some(slot) && slot.pc == l.pc && slot.desc@
                    == commit_text(l.commit),
            },
    {
        let if_id = match &self.if_id {
            None => None,
            Some(f) => match frame_len(&f.bytes) {
                Ok(len) => {
                    if len as usize <= MAX_INSN_BYTES {
                        let part = vstd::slice::slice_subrange(f.bytes.as_slice(), 0, len as usize);
                        assert(part@ == f.bytes@.take(len as int));
                        Some(StageSlot { pc: f.pc, desc: crate::vea_sim::assembler::hex(part) })
                    } else {
                        None
                    }
                },
                Err(_) => None,
            },
        };
        let id_ex = match &self.id_ex {
            None => None,
            Some(l) => Some(StageSlot { pc: l.pc, desc: l.op.describe() }),
        };
        let ex_wb = match &self.ex_wb {
            None => None,
            Some(l) => Some(StageSlot { pc: l.pc, desc: l.commit.describe() }),
        };
        Pipeline { if_id, id_ex, ex_wb }
    }
}

/// A snapshot shows this state: pc, registers, flags, counters, halted.
pub open spec fn snapshot_of(s: ProcV, snap: Snapshot) -> bool {
    &&& snap.pc == s.pc
    &&& snap.regs@ == s.regs
    &&& snap.flags.z == s.z && snap.flags.n == s.n && snap.flags.c == s.c && snap.flags.v == s.v
    &&& snap.completed_instrs == s.completed_instrs
    &&& snap.cycles == s.cycles
    &&& snap.halted == s.halted
}

} // verus!
