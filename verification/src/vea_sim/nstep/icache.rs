//! Instruction cache for the pipelined simulator: one contiguous window of
//! program bytes, `[base, base + ICACHE_SIZE)`, that Fetch streams through by
//! PC. A frame whose bytes all land inside the window is a hit and costs
//! nothing; anything else slides the window to start at the PC, reloads it
//! from memory and charges the miss penalty.
use crate::vea_sim::isa::{ICACHE_SIZE, MAX_INSN_BYTES};
use crate::vea_sim::memory::MemGuard;
use vstd::prelude::*;

verus! {

pub struct ICache {
    pub base: u64,
    pub valid: bool,
    pub bytes: [u8; ICACHE_SIZE],
}

/// Whether the whole frame at `addr` sits inside the window (and can be read
/// from it).
pub open spec fn covers_spec(c: &ICache, addr: u64) -> bool {
    &&& c.valid
    &&& addr >= c.base
    &&& addr - c.base + MAX_INSN_BYTES <= ICACHE_SIZE
}

/// The bytes of memory from `addr` on, wrapping at the top of the space.
pub open spec fn window_at(m: MemGuard, addr: u64, n: nat) -> Seq<u8> {
    Seq::new(n, |i: int| m.byte((addr + i) % 0x1_0000_0000_0000_0000))
}

impl ICache {
    /// An empty cache: the first fill always misses.
    pub fn new() -> (c: ICache)
        ensures
            !c.valid,
            c.base == 0,
            c.bytes@ == Seq::new(ICACHE_SIZE as nat, |i: int| 0u8),
    {
        let c = ICache { base: 0, valid: false, bytes: [0u8; ICACHE_SIZE] };
        assert(c.bytes@ =~= Seq::new(ICACHE_SIZE as nat, |i: int| 0u8));
        c
    }

    /// Drop the window. Fetch calls this on a branch redirect.
    pub fn flush(&mut self)
        ensures
            !final(self).valid,
            final(self).base == old(self).base,
            final(self).bytes@ == old(self).bytes@,
    {
        self.valid = false;
    }

    fn covers(&self, addr: u64) -> (b: bool)
        ensures
            b == covers_spec(self, addr),
    {
        self.valid && addr >= self.base && addr - self.base <= (ICACHE_SIZE - MAX_INSN_BYTES) as u64
    }

    /// The frame at `addr` and the stall it cost: zero on a hit, the miss
    /// penalty when the window had to slide to `addr` and reload.
    pub fn fill(&mut self, mem: &MemGuard, addr: u64, miss_penalty: u64) -> (r: (
        [u8; MAX_INSN_BYTES],
        u64,
    ))
        requires
            mem.wf(),
        ensures
            covers_spec(old(self), addr) ==> r.1 == 0 && *final(self) == *old(self),
            !covers_spec(old(self), addr) ==> r.1 == miss_penalty && final(self).valid
                && final(self).base == addr && final(self).bytes@ == window_at(
                *mem,
                addr,
                ICACHE_SIZE as nat,
            ),
            covers_spec(final(self), addr),
            r.0@ == final(self).bytes@.subrange(
                addr - final(self).base,
                addr - final(self).base + MAX_INSN_BYTES,
            ),
    {
        let stall = if self.covers(addr) {
            0
        } else {
            self.base = addr;
            let mut i: usize = 0;
            while i < ICACHE_SIZE
                invariant
                    mem.wf(),
                    i <= ICACHE_SIZE,
                    self.base == addr,
                    forall|j: int| 0 <= j < i ==> #[trigger] self.bytes@[j] == window_at(
                        *mem,
                        addr,
                        ICACHE_SIZE as nat,
                    )[j],
                decreases ICACHE_SIZE - i,
            {
                let a = addr.wrapping_add(i as u64);
                let b = if mem.is_mapped(a) {
                    match mem.read(a, 1) {
                        Ok(v) => v as u8,
                        Err(_) => 0,
                    }
                } else {
                    0
                };
                proof {
                    assert(a == (addr + i) % 0x1_0000_0000_0000_0000);
                    crate::vea_sim::memory::lemma_be_val_one(mem.bytes_at(a as int, 1));
                    assert(mem.bytes_at(a as int, 1)[0] == mem.byte(a as int));
                }
                self.bytes[i] = b;
                i += 1;
            }
            assert(self.bytes@ =~= window_at(*mem, addr, ICACHE_SIZE as nat));
            self.valid = true;
            miss_penalty
        };
        let off = (addr - self.base) as usize;
        let mut frame = [0u8; MAX_INSN_BYTES];
        let mut k: usize = 0;
        while k < MAX_INSN_BYTES
            invariant
                off + MAX_INSN_BYTES <= ICACHE_SIZE,
                k <= MAX_INSN_BYTES,
                forall|j: int| 0 <= j < k ==> #[trigger] frame@[j] == self.bytes@[off + j],
            decreases MAX_INSN_BYTES - k,
        {
            frame[k] = self.bytes[off + k];
            k += 1;
        }
        assert(frame@ =~= self.bytes@.subrange(off as int, off + MAX_INSN_BYTES));
        (frame, stall)
    }
}

} // verus!
