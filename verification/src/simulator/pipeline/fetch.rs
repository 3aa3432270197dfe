//! IF: copy the widest possible frame at the PC into the IF/ID latch.
use crate::assembler::isa::framing;
use crate::simulator::memory::{self, Fault, Memory, zeros};
use crate::simulator::processor::{Core, Trap};
use vstd::prelude::*;

verus! {

/// The opcode byte, the PLEN|FLAGS byte, and the largest payload.
pub const FRAME_BYTES: usize = 17;

/// IF/ID latch: the raw bytes of the frame at `pc`, not yet interpreted.
#[derive(Debug, Clone, Copy, PartialEq, Eq)]
pub struct IfIdLatch {
    pub valid: bool,
    pub pc: u64,
    /// opcode, PLEN|FLAGS, then up to PLEN_MAX payload bytes.
    pub bytes: [u8; FRAME_BYTES],
}

impl Default for IfIdLatch {
    fn default() -> (l: IfIdLatch)
        ensures
            !l.valid,
            l.pc == 0,
            l.bytes@ == zeros(FRAME_BYTES as nat),
    {
        let l = IfIdLatch { valid: false, pc: 0, bytes: [0u8; FRAME_BYTES] };
        assert(l.bytes@ =~= zeros(FRAME_BYTES as nat));
        l
    }
}

/// How much of the frame window lies below the top of memory.
pub open spec fn window_len(pc: u64) -> nat {
    let left: int = if pc < memory::MEM_SIZE {
        memory::MEM_SIZE - pc
    } else {
        0
    };
    if left < FRAME_BYTES {
        left as nat
    } else {
        FRAME_BYTES as nat
    }
}

/// The bytes a fetch at `pc` latches: the window below the top of memory,
/// then zeros.
pub open spec fn fetch_window(mem: Seq<u8>, pc: u64) -> Seq<u8> {
    Seq::new(
        FRAME_BYTES as nat,
        |j: int|
            if j < window_len(pc) {
                mem[pc + j]
            } else {
                0u8
            },
    )
}

impl Core {
    /// Fetch the frame at `pc`: an odd PC traps; otherwise the window of
    /// `FRAME_BYTES` bytes (cut short at the top of memory and zero-padded)
    /// is read, and a read past the end of the given memory traps.
    pub fn fetch(&self, mem: &Memory) -> (r: Result<IfIdLatch, Trap>)
        ensures
            self.pc % framing::INSTR_ALIGN != 0 ==> r == Err::<IfIdLatch, Trap>(
                Trap::MisalignedPc { pc: self.pc },
            ),
            self.pc % framing::INSTR_ALIGN == 0 && window_len(self.pc) > 0 && self.pc + window_len(
                self.pc,
            ) > mem.bytes@.len() ==> r == Err::<IfIdLatch, Trap>(
                Trap::Memory(Fault::OutOfBounds { addr: self.pc, len: window_len(self.pc) as usize }),
            ),
            self.pc % framing::INSTR_ALIGN == 0 && (window_len(self.pc) == 0 || self.pc + window_len(
                self.pc,
            ) <= mem.bytes@.len()) ==> (r matches Ok(l) && l.valid && l.pc == self.pc && l.bytes@
                == fetch_window(mem.bytes@, self.pc)),
    {
        if self.pc % framing::INSTR_ALIGN != 0 {
            return Err(Trap::MisalignedPc { pc: self.pc });
        }
        let want = FRAME_BYTES as u64;
        let left = (memory::MEM_SIZE as u64).saturating_sub(self.pc);
        let have = (if left < want {
            left
        } else {
            want
        }) as usize;
        let ghost n = window_len(self.pc);
        assert(have == n);
        let mut bytes = [0u8; FRAME_BYTES];
        if have > 0 {
            let chunk = match mem.read(self.pc, have) {
                Ok(c) => c,
                Err(f) => {
                    return Err(Trap::Memory(f));
                },
            };
            let mut i: usize = 0;
            while i < have
                invariant
                    i <= have,
                    have <= FRAME_BYTES,
                    chunk@.len() == have,
                    bytes@.len() == FRAME_BYTES,
                    forall|j: int| 0 <= j < have ==> #[trigger] chunk@[j] == mem.bytes@[self.pc + j],
                    forall|j: int| 0 <= j < i ==> #[trigger] bytes@[j] == chunk@[j],
                    forall|j: int| i <= j < FRAME_BYTES ==> #[trigger] bytes@[j] == 0,
                decreases have - i,
            {
                bytes[i] = chunk[i];
                i += 1;
            }
        }
        assert(bytes@ =~= fetch_window(mem.bytes@, self.pc));
        Ok(IfIdLatch { valid: true, pc: self.pc, bytes })
    }
}

} // verus!
