//! The register file and the execution core.
use crate::simulator::memory::Fault;
use crate::text;
use vstd::prelude::*;

verus! {

/// r0 .. r31.
pub const REG_COUNT: usize = 32;

/// The register bank with its port configuration: three read ports and one
/// write port.
#[derive(Debug, Clone)]
pub struct RegisterFile {
    /// The registers, r0 .. r31.
    pub registers: [u64; REG_COUNT],
    /// write(reg, val)
    pub write_port_config: Option<(u8, u64)>,
    pub read_rd_port_config: Option<u8>,
    pub read_rs1_port_config: Option<u8>,
    pub read_rs2_port_config: Option<u8>,
}

/// What a read port driven with `sel` yields: the selected register, or zero
/// for an unconfigured port.
pub open spec fn port_value(regs: Seq<u64>, sel: Option<u8>) -> u64 {
    match sel {
        Some(i) => regs[i as int],
        None => 0,
    }
}

/// A port selection that names a register of the bank (or none).
pub open spec fn port_ok(sel: Option<u8>) -> bool {
    sel matches Some(i) ==> i < REG_COUNT
}

impl Default for RegisterFile {
    fn default() -> (r: RegisterFile)
        ensures
            r.registers@ == Seq::new(REG_COUNT as nat, |i: int| 0u64),
            r.write_port_config is None,
            r.read_rd_port_config is None,
            r.read_rs1_port_config is None,
            r.read_rs2_port_config is None,
    {
        let r = RegisterFile {
            registers: [0u64; REG_COUNT],
            write_port_config: None,
            read_rd_port_config: None,
            read_rs1_port_config: None,
            read_rs2_port_config: None,
        };
        assert(r.registers@ =~= Seq::new(REG_COUNT as nat, |i: int| 0u64));
        r
    }
}

impl RegisterFile {
    /// Combinational read: drive a port with a register index and the value
    /// drops out the same cycle. An unconfigured port settles to zero.
    pub fn read_port(&self, sel: Option<u8>) -> (v: u64)
        requires
            port_ok(sel),
        ensures
            v == port_value(self.registers@, sel),
    {
        match sel {
            Some(i) => self.registers[i as usize],
            None => 0,
        }
    }
}

/// Where the core is.
#[derive(Debug, Clone, Copy, PartialEq, Eq)]
pub enum CoreState {
    /// Running, at this PC.
    Running(u64),
    /// Hit the halt instruction.
    Stopped,
    Exception(Trap),
}

/// Something that stops or diverts the core.
#[derive(Debug, Clone, Copy, PartialEq, Eq)]
pub enum Trap {
    /// A `halt` retired.
    Halt,
    /// Opcode/flags had no entry in the instruction table.
    IllegalInstruction { pc: u64 },
    /// Frame length disagreed with the table, or operands were malformed.
    MalformedInstruction { pc: u64 },
    /// The PC was odd.
    MisalignedPc { pc: u64 },
    /// A load or store faulted.
    Memory(Fault),
}

/// Named debug addresses. A later entry for a name wins; setting a name
/// drops its earlier entries first.
#[derive(Debug, Clone)]
pub struct Breakpoints {
    entries: Vec<(Vec<char>, u64)>,
}

/// The address registered under `name`: the last entry for it.
pub open spec fn last_entry(s: Seq<(Vec<char>, u64)>, name: Seq<char>) -> Option<u64>
    decreases s.len(),
{
    if s.len() == 0 {
        None
    } else if s.last().0@ == name {
        Some(s.last().1)
    } else {
        last_entry(s.drop_last(), name)
    }
}

impl Breakpoints {
    /// The address of the breakpoint called `name`, if there is one.
    pub closed spec fn at(&self, name: Seq<char>) -> Option<u64> {
        last_entry(self.entries@, name)
    }

    /// No breakpoints.
    pub fn new() -> (b: Breakpoints)
        ensures
            forall|n: Seq<char>| #[trigger] b.at(n) is None,
    {
        Breakpoints { entries: Vec::new() }
    }

    /// The address of the breakpoint called `name`, if there is one.
    pub fn get(&self, name: &str) -> (r: Option<u64>)
        ensures
            r == self.at(name@),
    {
        let key = text::str_chars(name);
        let mut i = self.entries.len();
        assert(self.entries@.take(self.entries@.len() as int) =~= self.entries@);
        while i > 0
            invariant
                i <= self.entries@.len(),
                key@ == name@,
                last_entry(self.entries@, name@) == last_entry(self.entries@.take(i as int), name@),
            decreases i,
        {
            assert(self.entries@.take(i as int).drop_last() =~= self.entries@.take(i - 1));
            if text::chars_eq(self.entries[i - 1].0.as_slice(), key.as_slice()) {
                return Some(self.entries[i - 1].1);
            }
            i -= 1;
        }
        assert(self.entries@.take(0) =~= Seq::<(Vec<char>, u64)>::empty());
        None
    }

    /// Set (or move) `name` to `address`.
    pub fn insert(&mut self, name: &str, address: u64)
        ensures
            forall|n: Seq<char>| #[trigger] final(self).at(n) == if n == name@ {
                Some(address)
            } else {
                old(self).at(n)
            },
    {
        let key = text::str_chars(name);
        self.drop_key(key.as_slice());
        let ghost mid = *self;
        let ghost before = self.entries@;
        self.entries.push((key, address));
        proof {
            assert(self.entries@.drop_last() =~= before);
            assert forall|n: Seq<char>| #[trigger] self.at(n) == (if n == name@ {
                Some(address)
            } else {
                old(self).at(n)
            }) by {
                assert(self.entries@.last().0@ == name@);
                assert(mid.at(n) == last_entry(before, n));
            }
        }
    }

    /// Remove `name`, if it is set.
    pub fn remove(&mut self, name: &str)
        ensures
            forall|n: Seq<char>| #[trigger] final(self).at(n) == if n == name@ {
                None
            } else {
                old(self).at(n)
            },
    {
        let key = text::str_chars(name);
        self.drop_key(key.as_slice());
    }

    fn drop_key(&mut self, key: &[char])
        ensures
            forall|n: Seq<char>| #[trigger] final(self).at(n) == if n == key@ {
                None
            } else {
                old(self).at(n)
            },
    {
        let ghost s = self.entries@;
        let mut kept: Vec<(Vec<char>, u64)> = Vec::new();
        let mut i: usize = 0;
        while i < self.entries.len()
            invariant
                s == self.entries@,
                i <= s.len(),
                forall|n: Seq<char>| #[trigger] last_entry(kept@, n) == if n == key@ {
                    None
                } else {
                    last_entry(s.take(i as int), n)
                },
            decreases s.len() - i,
        {
            assert(s.take(i + 1).drop_last() =~= s.take(i as int));
            let e = &self.entries[i];
            let ghost k0 = kept@;
            if !text::chars_eq(e.0.as_slice(), key) {
                let name_copy = text::copy_range(e.0.as_slice(), 0, e.0.len());
                proof {
                    assert(e.0@.subrange(0, e.0@.len() as int) =~= e.0@);
                }
                kept.push((name_copy, e.1));
                proof {
                    assert(kept@.drop_last() =~= k0);
                    assert(kept@.last().0@ == s[i as int].0@);
                    assert(kept@.last().1 == s[i as int].1);
                    assert forall|n: Seq<char>| #[trigger] last_entry(kept@, n) == (if n == key@ {
                        None
                    } else {
                        last_entry(s.take(i + 1), n)
                    }) by {
                        assert(s.take(i + 1).last() == s[i as int]);
                        assert(s[i as int].0@ != key@);
                        assert(last_entry(k0, n) == (if n == key@ {
                            None
                        } else {
                            last_entry(s.take(i as int), n)
                        }));
                    }
                }
            } else {
                proof {
                    assert forall|n: Seq<char>| #[trigger] last_entry(kept@, n) == (if n == key@ {
                        None
                    } else {
                        last_entry(s.take(i + 1), n)
                    }) by {
                        assert(s.take(i + 1).last() == s[i as int]);
                        assert(s[i as int].0@ == key@);
                        assert(s.take(i + 1).drop_last() =~= s.take(i as int));
                        assert(kept@ == k0);
                        assert(last_entry(kept@, n) == (if n == key@ {
                            None
                        } else {
                            last_entry(s.take(i as int), n)
                        }));
                        if n != key@ {
                            assert(last_entry(s.take(i + 1), n) == last_entry(s.take(i as int), n));
                        }
                    }
                }
            }
            i += 1;
        }
        assert(s.take(s.len() as int) =~= s);
        self.entries = kept;
    }
}

/// A core just reset to `pc`: registers zero and no ports driven, nothing
/// retired, running at `pc`, no breakpoints, no access in flight.
pub open spec fn fresh_core(c: Core, pc: u64) -> bool {
    &&& c.regs.registers@ == Seq::new(REG_COUNT as nat, |i: int| 0u64)
    &&& c.regs.write_port_config is None && c.regs.read_rd_port_config is None
    &&& c.regs.read_rs1_port_config is None && c.regs.read_rs2_port_config is None
    &&& c.pc == pc
    &&& !c.halted
    &&& c.retired == 0
    &&& c.state == CoreState::Running(pc)
    &&& forall|n: Seq<char>| #[trigger] c.breakpoints.at(n) is None
    &&& !c.stall_execute
    &&& c.ex_pending is None
}

/// The execution unit.
#[derive(Debug, Clone)]
pub struct Core {
    pub regs: RegisterFile,
    /// Program counter. Bit 0 is always 0 and reserved as a tag bit.
    pub pc: u64,
    /// Set once a `halt` retires.
    pub halted: bool,
    /// Instructions retired since the last reset.
    pub retired: u64,
    pub state: CoreState,
    /// Debug breakpoints by name.
    pub breakpoints: Breakpoints,
    /// Output of EX: a memory access is still in progress, so the front of
    /// the pipe holds.
    pub stall_execute: bool,
    /// Stall cycles left for the access in EX (`None` when none has begun).
    pub ex_pending: Option<u32>,
}

impl Core {
    /// A core reset to `pc`: registers zero, nothing retired, running, no
    /// breakpoints, no access in flight.
    pub fn new(pc: u64) -> (c: Core)
        ensures
            fresh_core(c, pc),
    {
        Core {
            regs: RegisterFile::default(),
            pc: pc,
            halted: false,
            retired: 0,
            state: CoreState::Running(pc),
            breakpoints: Breakpoints::new(),
            stall_execute: false,
            ex_pending: None,
        }
    }

    /// Set (or move) the breakpoint called `name` to `address`.
    pub fn register_breakpoint(&mut self, name: String, address: u64)
        ensures
            forall|n: Seq<char>| #[trigger] final(self).breakpoints.at(n) == if n == name@ {
                Some(address)
            } else {
                old(self).breakpoints.at(n)
            },
            final(self).regs == old(self).regs && final(self).pc == old(self).pc,
            final(self).halted == old(self).halted && final(self).retired == old(self).retired,
            final(self).state == old(self).state,
            final(self).stall_execute == old(self).stall_execute && final(self).ex_pending == old(self).ex_pending,
    {
        self.breakpoints.insert(name.as_str(), address);
    }

    /// Remove the breakpoint called `name`, if there is one.
    pub fn remove_breakpoint(&mut self, name: String)
        ensures
            forall|n: Seq<char>| #[trigger] final(self).breakpoints.at(n) == if n == name@ {
                None
            } else {
                old(self).breakpoints.at(n)
            },
            final(self).regs == old(self).regs && final(self).pc == old(self).pc,
            final(self).halted == old(self).halted && final(self).retired == old(self).retired,
            final(self).state == old(self).state,
            final(self).stall_execute == old(self).stall_execute && final(self).ex_pending == old(self).ex_pending,
    {
        self.breakpoints.remove(name.as_str());
    }

    /// Overwrite one register (a debug facility).
    pub fn force_reg(&mut self, reg: u8, value: u64)
        requires
            reg < REG_COUNT,
        ensures
            final(self).regs.registers@ == old(self).regs.registers@.update(reg as int, value),
            final(self).regs.write_port_config == old(self).regs.write_port_config,
            final(self).regs.read_rd_port_config == old(self).regs.read_rd_port_config,
            final(self).regs.read_rs1_port_config == old(self).regs.read_rs1_port_config,
            final(self).regs.read_rs2_port_config == old(self).regs.read_rs2_port_config,
            final(self).pc == old(self).pc && final(self).halted == old(self).halted,
            final(self).retired == old(self).retired && final(self).state == old(self).state,
            final(self).breakpoints == old(self).breakpoints,
            final(self).stall_execute == old(self).stall_execute && final(self).ex_pending == old(self).ex_pending,
    {
        self.regs.registers[reg as usize] = value;
    }
}

} // verus!
