//! EX: the ALU and the control for memory accesses, which are folded into
//! this stage and hold it for a fixed number of cycles.
use crate::simulator::pipeline::decode::IdExLatch;
use crate::simulator::processor::{Core, Trap, port_ok, port_value};
use vstd::prelude::*;

verus! {

/// A memory access occupies EX for this many cycles: all but the last are
/// stall cycles with `stall_execute` held.
pub const MEM_ACCESS_CYCLES: u32 = 3;

/// EX latch (feeds WB).
#[derive(Debug, Clone, Copy, PartialEq, Eq)]
pub struct ExLatch {
    /// (reg, value) if there is a register write to do.
    pub dest_reg_info: Option<(u8, u64)>,
    /// (addr, value) of a store.
    pub dest_mem_info: Option<(u64, u64)>,
}

/// The empty EX latch: a bubble to WB.
pub open spec fn empty_ex() -> ExLatch {
    ExLatch { dest_reg_info: None, dest_mem_info: None }
}

impl Default for ExLatch {
    fn default() -> (l: ExLatch)
        ensures
            l == empty_ex(),
    {
        ExLatch { dest_reg_info: None, dest_mem_info: None }
    }
}

/// `x - y` saturated to the `i64` range.
pub open spec fn sat_sub_i64(x: i64, y: i64) -> i64 {
    let d = x - y;
    if d < i64::MIN {
        i64::MIN
    } else if d > i64::MAX {
        i64::MAX
    } else {
        d as i64
    }
}

/// Adds: `add` and `addi`.
pub open spec fn is_add(op: u8) -> bool {
    op == 0x10 || op == 0x20
}

/// Shifts: `shl`, `shr`, `sar` and their immediate forms.
pub open spec fn is_shift(op: u8) -> bool {
    op == 0x16 || op == 0x17 || op == 0x18 || op == 0x24 || op == 0x25 || op == 0x26
}

/// The ALU, as the instruction table gives it: `add`/`addi` add, `sub`
/// subtracts (saturating), `and`/`andi`, `or`/`ori`, `xor`/`xori` and `nor`
/// are bitwise, `shl`/`shli` shift left, `shr`/`shri` shift right logically
/// and `sar`/`sari` arithmetically. Other opcodes have no ALU operation.
pub open spec fn alu_spec(op: u8, a: u64, b: u64) -> Option<u64> {
    if op == 0x10 || op == 0x20 {
        Some((a as i64 + b as i64) as u64)
    } else if op == 0x11 {
        Some(sat_sub_i64(a as i64, b as i64) as u64)
    } else if op == 0x12 || op == 0x21 {
        Some(a & b)
    } else if op == 0x13 || op == 0x22 {
        Some(a | b)
    } else if op == 0x14 || op == 0x23 {
        Some(a ^ b)
    } else if op == 0x15 {
        Some(!(a | b))
    } else if op == 0x16 || op == 0x24 {
        Some(a << b)
    } else if op == 0x17 || op == 0x25 {
        Some(a >> b)
    } else if op == 0x18 || op == 0x26 {
        Some(((a as i64) >> b) as u64)
    } else {
        None
    }
}

/// The integer ALU opcodes: register form and immediate form.
pub open spec fn is_alu(op: u8) -> bool {
    (0x10 <= op <= 0x18) || (0x20 <= op <= 0x26)
}

/// Loads and stores.
pub open spec fn is_mem(op: u8) -> bool {
    0x50 <= op <= 0x57
}

/// The families this stage does not carry out yet: nop/halt, moves,
/// set-if-predicate, branches and jumps.
pub open spec fn is_unimplemented(op: u8) -> bool {
    ||| op == 0x00
    ||| op == 0xFF
    ||| (0x02 <= op <= 0x03)
    ||| (0x30 <= op <= 0x37)
    ||| (0x40 <= op <= 0x45)
    ||| (0x48 <= op <= 0x4C)
}

/// The ALU's second operand: the immediate for the `-i` forms, else `rs2`.
pub open spec fn alu_b(regs: Seq<u64>, idex: IdExLatch, op: u8) -> u64 {
    if op & 0x20 != 0 {
        idex.imm_raw
    } else {
        port_value(regs, idex.rs2)
    }
}

/// The ALU computes without fault: there is a destination, an add fits in
/// `i64`, and a shift amount is below 64.
pub open spec fn alu_defined(regs: Seq<u64>, idex: IdExLatch, op: u8) -> bool {
    let a = port_value(regs, idex.rs1);
    let b = alu_b(regs, idex, op);
    &&& idex.rd is Some
    &&& (is_add(op) ==> i64::MIN <= a as i64 + b as i64 <= i64::MAX)
    &&& (is_shift(op) ==> b < 64)
}

/// The inputs on which EX completes: a bubble; or register selections inside
/// the bank and an instruction that is not of an unimplemented family, an
/// ALU operation that does not fault, and a memory access only on one of its
/// stall cycles.
pub open spec fn execute_defined(c: Core, idex: IdExLatch) -> bool {
    !idex.valid || {
        &&& port_ok(idex.rd) && port_ok(idex.rs1) && port_ok(idex.rs2)
        &&& match idex.instr {
            None => true,
            Some(d) => if is_alu(d.opcode) {
                alu_defined(c.regs.registers@, idex, d.opcode)
            } else if is_mem(d.opcode) {
                c.ex_pending != Some(0u32)
            } else {
                !is_unimplemented(d.opcode)
            },
        }
    }
}

/// What EX hands to WB.
pub open spec fn execute_result(c: Core, idex: IdExLatch) -> Result<ExLatch, Trap> {
    if !idex.valid {
        Ok(empty_ex())
    } else {
        match idex.instr {
            None => Err(Trap::IllegalInstruction { pc: idex.pc }),
            Some(d) => if is_alu(d.opcode) {
                let a = port_value(c.regs.registers@, idex.rs1);
                let b = alu_b(c.regs.registers@, idex, d.opcode);
                match alu_spec(d.opcode, a, b) {
                    Some(v) => Ok(ExLatch { dest_reg_info: Some((idex.rd.unwrap(), v)), dest_mem_info: None }),
                    None => Err(Trap::IllegalInstruction { pc: idex.pc }),
                }
            } else if is_mem(d.opcode) {
                Ok(empty_ex())
            } else {
                Err(Trap::IllegalInstruction { pc: idex.pc })
            },
        }
    }
}

/// Whether this latch starts (or continues) a memory access in EX.
pub open spec fn in_access(idex: IdExLatch) -> bool {
    &&& idex.valid
    &&& idex.instr matches Some(d) && is_mem(d.opcode)
}

/// The stall cycles left after this one, for an access in EX.
pub open spec fn pending_after(p: Option<u32>) -> u32 {
    let remaining: u32 = match p {
        Some(r) => r,
        None => (MEM_ACCESS_CYCLES - 1) as u32,
    };
    (remaining - 1) as u32
}

impl Core {
    /// Run one cycle of EX on `idex`.
    pub fn execute(&mut self, idex: &IdExLatch) -> (r: Result<ExLatch, Trap>)
        requires
            execute_defined(*old(self), *idex),
        ensures
            r == execute_result(*old(self), *idex),
            final(self).stall_execute == in_access(*idex),
            final(self).ex_pending == if in_access(*idex) {
                Some(pending_after(old(self).ex_pending))
            } else {
                old(self).ex_pending
            },
            final(self).regs == old(self).regs && final(self).pc == old(self).pc,
            final(self).halted == old(self).halted && final(self).retired == old(self).retired,
            final(self).state == old(self).state && final(self).breakpoints == old(self).breakpoints,
    {
        self.stall_execute = false;
        if !idex.valid {
            return Ok(ExLatch::default());
        }
        // Every port is driven, in case rd serves as a store's base.
        let _rd_rb: u64 = self.regs.read_port(idex.rd);
        let _rs1: u64 = self.regs.read_port(idex.rs1);
        let _rs2: u64 = self.regs.read_port(idex.rs2);
        let op = match idex.instr {
            Some(d) => d.opcode,
            None => {
                return Err(Trap::IllegalInstruction { pc: idex.pc });
            },
        };
        if (0x10 <= op && op <= 0x18) || (0x20 <= op && op <= 0x26) {
            self.exec_alu(idex, op)
        } else if 0x50 <= op && op <= 0x53 {
            self.exec_load(idex)
        } else if 0x54 <= op && op <= 0x57 {
            self.exec_store(idex)
        } else {
            Err(Trap::IllegalInstruction { pc: idex.pc })
        }
    }

    /// rd = rs1 OP rs2, or rd = rs1 OP imm for the `-i` forms, at 64 bits.
    fn exec_alu(&mut self, idex: &IdExLatch, op: u8) -> (r: Result<ExLatch, Trap>)
        requires
            idex.valid,
            idex.instr matches Some(d) && d.opcode == op,
            is_alu(op),
            port_ok(idex.rs1) && port_ok(idex.rs2),
            alu_defined(old(self).regs.registers@, *idex, op),
        ensures
            r == execute_result(*old(self), *idex),
            *final(self) == *old(self),
    {
        let value_a: u64 = self.regs.read_port(idex.rs1);
        let value_b: u64 = if (op & 0x20) != 0 {
            idex.imm_raw
        } else {
            self.regs.read_port(idex.rs2)
        };
        let rd = match idex.rd {
            Some(r) => r,
            None => {
                return Err(Trap::IllegalInstruction { pc: idex.pc });
            },
        };
        let value = if op == 0x10 || op == 0x20 {
            (value_a as i64 + value_b as i64) as u64
        } else if op == 0x11 {
            let d = value_a as i64 as i128 - value_b as i64 as i128;
            let s: i64 = if d < i64::MIN as i128 {
                i64::MIN
            } else if d > i64::MAX as i128 {
                i64::MAX
            } else {
                d as i64
            };
            s as u64
        } else if op == 0x12 || op == 0x21 {
            value_a & value_b
        } else if op == 0x13 || op == 0x22 {
            value_a | value_b
        } else if op == 0x14 || op == 0x23 {
            value_a ^ value_b
        } else if op == 0x15 {
            !(value_a | value_b)
        } else if op == 0x16 || op == 0x24 {
            value_a << value_b
        } else if op == 0x17 || op == 0x25 {
            value_a >> value_b
        } else if op == 0x18 || op == 0x26 {
            ((value_a as i64) >> value_b) as u64
        } else {
            return Err(Trap::IllegalInstruction { pc: idex.pc });
        };
        Ok(ExLatch { dest_reg_info: Some((rd, value)), dest_mem_info: None })
    }

    /// rd = mem[rb + disp]. On a stall cycle of the access, drive a bubble to
    /// WB and hold the front of the pipe.
    fn exec_load(&mut self, idex: &IdExLatch) -> (r: Result<ExLatch, Trap>)
        requires
            old(self).ex_pending != Some(0u32),
        ensures
            r == Ok::<ExLatch, Trap>(empty_ex()),
            final(self).stall_execute,
            final(self).ex_pending == Some(pending_after(old(self).ex_pending)),
            final(self).regs == old(self).regs && final(self).pc == old(self).pc,
            final(self).halted == old(self).halted && final(self).retired == old(self).retired,
            final(self).state == old(self).state && final(self).breakpoints == old(self).breakpoints,
    {
        let stalled = self.mem_access_tick();
        assert(stalled is None);
        Ok(ExLatch::default())
    }

    /// mem[rb + disp] = rs. On a stall cycle of the access, drive a bubble to
    /// WB and hold the front of the pipe.
    fn exec_store(&mut self, idex: &IdExLatch) -> (r: Result<ExLatch, Trap>)
        requires
            old(self).ex_pending != Some(0u32),
        ensures
            r == Ok::<ExLatch, Trap>(empty_ex()),
            final(self).stall_execute,
            final(self).ex_pending == Some(pending_after(old(self).ex_pending)),
            final(self).regs == old(self).regs && final(self).pc == old(self).pc,
            final(self).halted == old(self).halted && final(self).retired == old(self).retired,
            final(self).state == old(self).state && final(self).breakpoints == old(self).breakpoints,
    {
        let stalled = self.mem_access_tick();
        assert(stalled is None);
        Ok(ExLatch::default())
    }

    /// Advance the fixed access latency for the load or store in EX: `None`
    /// on a stall cycle (and `stall_execute` raised), `Some(())` on the cycle
    /// the access is performed.
    fn mem_access_tick(&mut self) -> (r: Option<()>)
        ensures
            ({
                let remaining: u32 = match old(self).ex_pending {
                    Some(x) => x,
                    None => (MEM_ACCESS_CYCLES - 1) as u32,
                };
                if remaining > 0 {
                    &&& r is None
                    &&& final(self).ex_pending == Some((remaining - 1) as u32)
                    &&& final(self).stall_execute
                } else {
                    &&& r is Some
                    &&& final(self).ex_pending is None
                    &&& final(self).stall_execute == old(self).stall_execute
                }
            }),
            final(self).regs == old(self).regs && final(self).pc == old(self).pc,
            final(self).halted == old(self).halted && final(self).retired == old(self).retired,
            final(self).state == old(self).state && final(self).breakpoints == old(self).breakpoints,
    {
        let remaining = match self.ex_pending {
            Some(x) => x,
            None => MEM_ACCESS_CYCLES - 1,
        };
        if remaining > 0 {
            self.ex_pending = Some(remaining - 1);
            self.stall_execute = true;
            return None;
        }
        self.ex_pending = None;
        Some(())
    }
}

/// Bit `i` of a word.
pub open spec fn bit_of(x: u64, i: u64) -> bool {
    (x >> i) & 1 == 1
}

/// The bitwise operations act bit by bit, in both their register and
/// immediate forms: `and` sets a bit where both operands have it, `or`
/// where either does, `xor` where exactly one does, and `nor` where
/// neither does. So `xor` of a value with itself is zero.
pub proof fn law_bitwise_ops(a: u64, b: u64, i: u64)
    requires
        i < 64,
    ensures
        alu_spec(0x12, a, b) matches Some(r) && bit_of(r, i) == (bit_of(a, i) && bit_of(b, i)),
        alu_spec(0x21, a, b) matches Some(r) && bit_of(r, i) == (bit_of(a, i) && bit_of(b, i)),
        alu_spec(0x13, a, b) matches Some(r) && bit_of(r, i) == (bit_of(a, i) || bit_of(b, i)),
        alu_spec(0x22, a, b) matches Some(r) && bit_of(r, i) == (bit_of(a, i) || bit_of(b, i)),
        alu_spec(0x14, a, b) matches Some(r) && bit_of(r, i) == (bit_of(a, i) != bit_of(b, i)),
        alu_spec(0x23, a, b) matches Some(r) && bit_of(r, i) == (bit_of(a, i) != bit_of(b, i)),
        alu_spec(0x15, a, b) matches Some(r) && bit_of(r, i) == !(bit_of(a, i) || bit_of(b, i)),
        alu_spec(0x14, a, a) == Some(0u64),
        alu_spec(0x23, a, a) == Some(0u64),
{
    assert(((a & b) >> i) & 1 == 1 <==> (((a >> i) & 1 == 1) && ((b >> i) & 1 == 1))) by (bit_vector)
        requires
            i < 64,
    ;
    assert(((a | b) >> i) & 1 == 1 <==> (((a >> i) & 1 == 1) || ((b >> i) & 1 == 1))) by (bit_vector)
        requires
            i < 64,
    ;
    assert(((a ^ b) >> i) & 1 == 1 <==> (((a >> i) & 1 == 1) != ((b >> i) & 1 == 1))) by (bit_vector)
        requires
            i < 64,
    ;
    assert(((!(a | b)) >> i) & 1 == 1 <==> !(((a >> i) & 1 == 1) || ((b >> i) & 1 == 1))) by (bit_vector)
        requires
            i < 64,
    ;
    assert(a ^ a == 0) by (bit_vector);
}

/// `shr` is the operand divided by `2^b`, and `sar` the operand read as
/// signed divided by `2^b` rounding toward negative infinity (so a negative
/// operand stays negative), for every shift amount below 64, in both forms.
pub proof fn law_shifts_divide(a: u64, b: u64)
    requires
        b < 64,
    ensures
        alu_spec(0x17, a, b) matches Some(r) && r as int == a as int / vstd::arithmetic::power2::pow2(b as nat) as int,
        alu_spec(0x25, a, b) matches Some(r) && r as int == a as int / vstd::arithmetic::power2::pow2(b as nat) as int,
        alu_spec(0x18, a, b) matches Some(r) && r as i64 as int == (a as i64) as int
            / vstd::arithmetic::power2::pow2(b as nat) as int,
        alu_spec(0x26, a, b) matches Some(r) && r as i64 as int == (a as i64) as int
            / vstd::arithmetic::power2::pow2(b as nat) as int,
{
    vstd::bits::lemma_u64_shr_is_div(a, b);
    let x = a as i64;
    let y = x >> b;
    assert((y as u64) as i64 == y) by (bit_vector);
    crate::vea_sim::nstep::laws::law_sar_divides_rounding_down(x, b as i64);
    assert((b as i64) as u32 % 64 == b);
    assert(x.wrapping_shr((b as i64) as u32) == x >> b) by (bit_vector)
        requires
            b < 64,
    ;
}

/// `add` (both forms) gives the exact signed sum when it fits in 64 bits;
/// `sub` gives the exact signed difference when it fits and otherwise
/// saturates at the end of the range it overflows past.
pub proof fn law_add_sub(a: u64, b: u64)
    ensures
        i64::MIN <= a as i64 + b as i64 <= i64::MAX ==> (alu_spec(0x10, a, b) matches Some(r) && r as i64
            == a as i64 + b as i64),
        i64::MIN <= a as i64 + b as i64 <= i64::MAX ==> (alu_spec(0x20, a, b) matches Some(r) && r as i64
            == a as i64 + b as i64),
        alu_spec(0x11, a, b) matches Some(r) && {
            let d = a as i64 - b as i64;
            &&& i64::MIN <= d <= i64::MAX ==> r as i64 == d
            &&& d > i64::MAX ==> r as i64 == i64::MAX
            &&& d < i64::MIN ==> r as i64 == i64::MIN
        },
{
    let x = a as i64;
    let y = b as i64;
    if i64::MIN <= x + y <= i64::MAX {
        let z = (x + y) as i64;
        assert((z as u64) as i64 == z) by (bit_vector);
    }
    let w = sat_sub_i64(x, y);
    assert((w as u64) as i64 == w) by (bit_vector);
}

/// `shl` (both forms) moves every bit up by the shift amount, below 64:
/// bit `i` of the result is bit `i - b` of the operand, or clear below `b`.
pub proof fn law_shl_moves_bits_up(a: u64, b: u64, i: u64)
    requires
        b < 64,
        i < 64,
    ensures
        alu_spec(0x16, a, b) matches Some(r) && bit_of(r, i) == (i >= b && bit_of(a, (i - b) as u64)),
        alu_spec(0x24, a, b) matches Some(r) && bit_of(r, i) == (i >= b && bit_of(a, (i - b) as u64)),
{
    let j: u64 = if i >= b {
        (i - b) as u64
    } else {
        0
    };
    assert(((a << b) >> i) & 1 == 1 <==> (i >= b && ((a >> j) & 1 == 1))) by (bit_vector)
        requires
            b < 64,
            i < 64,
            i >= b ==> j == i - b,
    ;
}

} // verus!
