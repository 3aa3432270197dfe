//! The simulated memory: a flat, zero-filled image with the program at
//! address 0.
use vstd::prelude::*;

verus! {

/// Size of the simulated memory, in bytes.
pub const MEM_SIZE: usize = 65536;

/// The kind of a memory access.
#[derive(Debug, Clone, Copy, PartialEq, Eq)]
pub enum Access {
    Read,
    Write,
    Fetch,
}

/// Width of a single load or store.
#[derive(Debug, Clone, Copy, PartialEq, Eq)]
pub enum Width {
    Byte,
    Half,
    Word,
    Long,
}

/// An access that could not be completed.
#[derive(Debug, Clone, Copy, PartialEq, Eq)]
pub enum Fault {
    OutOfBounds { addr: u64, len: usize },
    Misaligned { addr: u64, width: Width },
}

/// The whole memory image. The program is loaded at address 0; the rest is
/// zero-filled.
#[derive(Debug, Clone)]
pub struct Memory {
    /// `MEM_SIZE` bytes, big-endian.
    pub bytes: Vec<u8>,
    /// Byte length of the program image at address 0.
    pub image_len: usize,
}

/// `n` zero bytes.
pub open spec fn zeros(n: nat) -> Seq<u8> {
    Seq::new(n, |i: int| 0u8)
}

/// Whether `len` bytes starting at `addr` lie inside a memory of `size` bytes.
pub open spec fn in_bounds(size: nat, addr: u64, len: usize) -> bool {
    addr + len <= size
}

fn zero_filled(n: usize) -> (v: Vec<u8>)
    ensures
        v@ == zeros(n as nat),
{
    let mut v: Vec<u8> = Vec::new();
    while v.len() < n
        invariant
            v.len() <= n,
            v@ == zeros(v.len() as nat),
        decreases n - v.len(),
    {
        v.push(0);
    }
    v
}

impl Memory {
    /// An all-zero memory with no program.
    pub fn new() -> (m: Memory)
        ensures
            m.bytes@ == zeros(MEM_SIZE as nat),
            m.image_len == 0,
    {
        Memory { bytes: zero_filled(MEM_SIZE), image_len: 0 }
    }

    /// Replace the contents with `image` at address 0 followed by zeros, or
    /// fail if the image does not fit.
    pub fn load_image(&mut self, image: &[u8]) -> (r: Result<(), Fault>)
        ensures
            image@.len() <= MEM_SIZE ==> r is Ok && final(self).bytes@ == image@ + zeros(
                (MEM_SIZE - image@.len()) as nat,
            ) && final(self).image_len == image@.len(),
            image@.len() > MEM_SIZE ==> r == Err::<(), Fault>(Fault::OutOfBounds { addr: 0, len: image@.len() as usize })
                && *final(self) == *old(self),
    {
        if image.len() > MEM_SIZE {
            return Err(Fault::OutOfBounds { addr: 0, len: image.len() });
        }
        let mut v: Vec<u8> = Vec::new();
        let mut i: usize = 0;
        while i < MEM_SIZE
            invariant
                i <= MEM_SIZE,
                image@.len() <= MEM_SIZE,
                v@.len() == i,
                forall|j: int| 0 <= j < i ==> #[trigger] v@[j] == (if j < image@.len() {
                    image@[j]
                } else {
                    0u8
                }),
            decreases MEM_SIZE - i,
        {
            if i < image.len() {
                v.push(image[i]);
            } else {
                v.push(0);
            }
            i += 1;
        }
        assert(v@ =~= image@ + zeros((MEM_SIZE - image@.len()) as nat));
        self.bytes = v;
        self.image_len = image.len();
        Ok(())
    }

    /// The `len` bytes starting at `addr`, or `OutOfBounds` when any of them
    /// lies past the end of memory.
    pub fn read(&self, addr: u64, len: usize) -> (r: Result<Vec<u8>, Fault>)
        ensures
            in_bounds(self.bytes@.len(), addr, len) ==> (r matches Ok(v) && v@ == self.bytes@.subrange(
                addr as int,
                addr + len,
            )),
            !in_bounds(self.bytes@.len(), addr, len) ==> r == Err::<Vec<u8>, Fault>(
                Fault::OutOfBounds { addr, len },
            ),
    {
        if addr as u128 + len as u128 > self.bytes.len() as u128 {
            return Err(Fault::OutOfBounds { addr, len });
        }
        let start = addr as usize;
        assert(self.bytes@.len() == self.bytes.len());
        let mut v: Vec<u8> = Vec::new();
        let mut i: usize = 0;
        while i < len
            invariant
                start == addr,
                start + len <= self.bytes@.len(),
                self.bytes@.len() == self.bytes.len(),
                i <= len,
                v@ == self.bytes@.subrange(start as int, start + i),
            decreases len - i,
        {
            v.push(self.bytes[start + i]);
            i += 1;
            assert(v@ =~= self.bytes@.subrange(start as int, start + i));
        }
        Ok(v)
    }
}

} // verus!
