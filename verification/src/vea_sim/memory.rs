//! A flat, byte-addressed main memory. Storage is paged: the top 48 bits of an
//! address pick a 64K page and the low 16 bits index into it. Pages are
//! allocated on first write, so a program that touches a few kilobytes does not
//! allocate the whole 64-bit space. Bytes of a page that was never written read
//! back as zero. Multi-byte accesses are big endian, work across page
//! boundaries, and fail if the width is unsupported or the access runs off the
//! top of the 64-bit space.
use crate::vea_sim::error::{Error, Msg, Result};
use std::collections::BTreeMap;
use vstd::prelude::*;

verus! {

broadcast use {vstd::std_specs::btree::group_btree_axioms, vstd::laws_cmp::group_laws_cmp};

pub const PAGE_BITS: u32 = 16;

pub const PAGE_SIZE: usize = 0x1_0000;

/// Number of pages in the 64-bit space.
pub const PAGE_COUNT: u64 = 0x1_0000_0000_0000;

/// Page number of an address.
pub open spec fn page_of(a: int) -> int {
    a / 0x1_0000
}

/// Offset of an address within its page.
pub open spec fn off_of(a: int) -> int {
    a % 0x1_0000
}

/// `256^n`.
pub open spec fn pow256(n: nat) -> nat
    decreases n,
{
    if n == 0 {
        1
    } else {
        256 * pow256((n - 1) as nat)
    }
}

/// Big-endian value of a byte sequence.
pub open spec fn be_val(s: Seq<u8>) -> nat
    decreases s.len(),
{
    if s.len() == 0 {
        0
    } else {
        be_val(s.drop_last()) * 256 + s.last() as nat
    }
}

/// Byte `i` (0 = most significant) of the `w`-byte big-endian form of `v`.
pub open spec fn be_byte(v: nat, w: nat, i: nat) -> u8 {
    ((v / pow256((w - 1 - i) as nat)) % 256) as u8
}

/// The `w`-byte big-endian form of `v` (its low `w` bytes).
pub open spec fn be_bytes(v: nat, w: nat) -> Seq<u8> {
    Seq::new(w, |i: int| be_byte(v, w, i as nat))
}

/// The access widths the machine supports.
pub open spec fn valid_width(w: int) -> bool {
    w == 1 || w == 2 || w == 4 || w == 8
}

/// An access of `len` bytes at `addr` stays inside the 64-bit space.
pub open spec fn in_space(addr: int, len: int) -> bool {
    len == 0 || addr + len - 1 <= u64::MAX
}

/// `m1` is `m0` after a big-endian write of the low `width` bytes of `val`
/// at `addr`: those bytes changed, every other byte kept, and the pages
/// they fall in mapped.
pub open spec fn written(m0: MemGuard, m1: MemGuard, addr: int, width: nat, val: nat) -> bool {
    &&& forall|a: int| 0 <= a <= u64::MAX ==> #[trigger]
        m1.byte(a) == if addr <= a < addr + width {
            be_byte(val, width, (a - addr) as nat)
        } else {
            m0.byte(a)
        }
    &&& forall|a: int| 0 <= a <= u64::MAX ==> #[trigger]
        m1.mapped(a) == (m0.mapped(a) || page_of(addr) <= page_of(a) <= page_of(addr + width - 1))
}

/// A read right after a write at the same address and width gives back the
/// low bytes of the written value; a read elsewhere that does not overlap it
/// gives what it gave before.
pub proof fn law_read_after_write(
    m0: MemGuard,
    m1: MemGuard,
    addr: int,
    width: nat,
    val: nat,
    other: int,
    w2: nat,
)
    requires
        written(m0, m1, addr, width, val),
        valid_width(width as int),
        0 <= addr,
        in_space(addr, width as int),
        0 <= other,
        in_space(other, w2 as int),
        other + w2 <= addr || addr + width <= other,
    ensures
        be_val(m1.bytes_at(addr, width)) == val % pow256(width),
        m1.bytes_at(other, w2) == m0.bytes_at(other, w2),
{
    assert(m1.bytes_at(addr, width) =~= be_bytes(val, width));
    lemma_be_val_bytes(val, width);
    assert(m1.bytes_at(other, w2) =~= m0.bytes_at(other, w2));
}

/// A successful change of memory: a write, a load of an image, or a clear.
pub enum MemEvent {
    Write { addr: u64, width: nat, val: nat },
    Load { addr: u64, bytes: Seq<u8> },
    Clear,
}

/// Whether the event stores a byte in the page holding `a`.
pub open spec fn touches(ev: MemEvent, a: int) -> bool {
    match ev {
        MemEvent::Write { addr, width, .. } => page_of(addr as int) <= page_of(a) <= page_of(
            addr + width - 1,
        ),
        MemEvent::Load { addr, bytes } => bytes.len() > 0 && page_of(addr as int) <= page_of(a)
            <= page_of(addr + bytes.len() - 1),
        MemEvent::Clear => false,
    }
}

/// `m1` is `m0` after the event, as `write`, `load` and `clear` state it on
/// success.
pub open spec fn event_done(m0: MemGuard, m1: MemGuard, ev: MemEvent) -> bool {
    match ev {
        MemEvent::Write { addr, width, val } => written(m0, m1, addr as int, width, val),
        MemEvent::Load { addr, bytes } => {
            &&& forall|a: int| 0 <= a <= u64::MAX ==> #[trigger]
                m1.byte(a) == if addr <= a < addr + bytes.len() {
                    bytes[a - addr]
                } else {
                    m0.byte(a)
                }
            &&& forall|a: int| 0 <= a <= u64::MAX ==> #[trigger]
                m1.mapped(a) == (m0.mapped(a) || touches(ev, a))
        },
        MemEvent::Clear => {
            &&& forall|a: int| !#[trigger] m1.mapped(a)
            &&& forall|a: int| #[trigger] m1.byte(a) == 0
        },
    }
}

/// Whether some event since the last clear stored a byte in the page
/// holding `a`.
pub open spec fn mapped_by(evs: Seq<MemEvent>, a: int) -> bool
    decreases evs.len(),
{
    if evs.len() == 0 {
        false
    } else {
        match evs.last() {
            MemEvent::Clear => false,
            ev => mapped_by(evs.drop_last(), a) || touches(ev, a),
        }
    }
}

/// Pages are mapped on first write only: starting from an empty memory,
/// after any run of writes, loads and clears (reads never change memory), a
/// page is mapped exactly when some write or load since the last clear
/// stored a byte in it.
pub proof fn law_pages_mapped_by_history(ms: Seq<MemGuard>, evs: Seq<MemEvent>, a: int)
    requires
        ms.len() == evs.len() + 1,
        forall|b: int| !#[trigger] ms[0].mapped(b),
        forall|i: int| 0 <= i < evs.len() ==> event_done(#[trigger] ms[i], ms[i + 1], evs[i]),
        0 <= a <= u64::MAX,
    ensures
        ms[evs.len() as int].mapped(a) == mapped_by(evs, a),
    decreases evs.len(),
{
    if evs.len() > 0 {
        let n = evs.len() - 1;
        let ms0 = ms.drop_last();
        let evs0 = evs.drop_last();
        assert forall|i: int| 0 <= i < evs0.len() implies event_done(#[trigger] ms0[i], ms0[i + 1], evs0[i]) by {
            assert(event_done(ms[i], ms[i + 1], evs[i]));
        }
        law_pages_mapped_by_history(ms0, evs0, a);
        assert(event_done(ms[n], ms[n + 1], evs[n]));
        assert(ms0[n] == ms[n]);
    }
}

/// All-zero bytes read as zero.
proof fn lemma_be_val_zero(w: nat)
    ensures
        be_val(Seq::new(w, |i: int| 0u8)) == 0,
    decreases w,
{
    if w > 0 {
        lemma_be_val_zero((w - 1) as nat);
        assert(Seq::new(w, |i: int| 0u8).drop_last() =~= Seq::new((w - 1) as nat, |i: int| 0u8));
    }
}

/// A cleared memory (or a new one) has nothing mapped, reads zero
/// everywhere, at every width, and counts no pages.
pub proof fn law_cleared_memory(m: MemGuard, a: int, w: nat)
    requires
        m.wf(),
        forall|b: int| !#[trigger] m.mapped(b),
    ensures
        !m.mapped(a),
        m.byte(a) == 0,
        be_val(m.bytes_at(a, w)) == 0,
        m.page_count() == 0,
{
    assert(m.bytes_at(a, w) =~= Seq::new(w, |i: int| 0u8));
    lemma_be_val_zero(w);
    assert forall|p: u64| !m.pages().contains_key(p) by {
        if m.pages().contains_key(p) {
            assert(p < PAGE_COUNT);
            let b: int = p as int * 0x1_0000;
            assert(page_of(b) == p as int) by (nonlinear_arith)
                requires
                    b == p as int * 0x1_0000,
                    p >= 0,
            {
                assert(b / 0x1_0000 == p as int);
            }
            assert(m.mapped(b));
        }
    }
    assert(m.pages().dom() =~= Set::<u64>::empty());
}

/// An address as its page number and its offset within that page.
fn split(addr: u64) -> (r: (u64, usize))
    ensures
        r.0 == page_of(addr as int),
        r.1 == off_of(addr as int),
        r.1 < PAGE_SIZE,
{
    (addr / 0x1_0000, (addr % 0x1_0000) as usize)
}

/// A fresh all-zero page.
fn blank_page() -> (z: Vec<u8>)
    ensures
        z@.len() == PAGE_SIZE,
        forall|i: int| 0 <= i < z@.len() ==> z@[i] == 0,
{
    let mut z: Vec<u8> = Vec::new();
    while z.len() < PAGE_SIZE
        invariant
            z@.len() <= PAGE_SIZE,
            forall|i: int| 0 <= i < z@.len() ==> z@[i] == 0,
        decreases PAGE_SIZE - z@.len(),
    {
        z.push(0);
    }
    z
}

/// Memory access structure: the paged byte store.
pub struct MemGuard {
    mem: BTreeMap<u64, Vec<u8>>,
}

/// How much of the address space is backed by storage.
pub struct Stats {
    pub pages: usize,
    pub bytes: u64,
    /// Highest mapped byte address, or 0 if nothing is mapped.
    pub high: u64,
}

impl MemGuard {
    /// The backing pages, by page number.
    pub closed spec fn pages(&self) -> Map<u64, Seq<u8>> {
        self.mem@.map_values(|p: Vec<u8>| p@)
    }

    /// Every page is a full page of the 64-bit space.
    pub open spec fn wf(&self) -> bool {
        forall|p: u64| #[trigger]
            self.pages().contains_key(p) ==> p < PAGE_COUNT && self.pages()[p].len() == PAGE_SIZE
    }

    /// Whether the page holding `a` is backed by storage.
    pub open spec fn mapped(&self, a: int) -> bool {
        self.pages().contains_key(page_of(a) as u64)
    }

    /// The byte at `a`; unmapped bytes read as zero.
    pub open spec fn byte(&self, a: int) -> u8 {
        if self.mapped(a) {
            self.pages()[page_of(a) as u64][off_of(a)]
        } else {
            0
        }
    }

    /// The `n` bytes starting at `a`.
    pub open spec fn bytes_at(&self, a: int, n: nat) -> Seq<u8> {
        Seq::new(n, |i: int| self.byte(a + i))
    }

    /// Number of mapped pages.
    pub open spec fn page_count(&self) -> nat {
        self.pages().dom().len()
    }

    /// An empty memory: nothing mapped, every byte zero.
    pub fn new() -> (m: MemGuard)
        ensures
            m.wf(),
            forall|a: int| !#[trigger] m.mapped(a),
            forall|a: int| #[trigger] m.byte(a) == 0,
    {
        let m = MemGuard { mem: BTreeMap::new() };
        assert(m.pages() =~= Map::empty());
        m
    }

    /// Clear all of simulated memory.
    pub fn clear(&mut self)
        ensures
            final(self).wf(),
            forall|a: int| !#[trigger] final(self).mapped(a),
            forall|a: int| #[trigger] final(self).byte(a) == 0,
    {
        self.mem.clear();
        assert(self.pages() =~= Map::empty());
    }

    /// The byte at `addr`.
    fn byte_at(&self, addr: u64) -> (b: u8)
        requires
            self.wf(),
        ensures
            b == self.byte(addr as int),
    {
        let (page, off) = split(addr);
        match self.mem.get(&page) {
            Some(p) => {
                assert(self.pages().contains_key(page));
                p[off]
            },
            None => 0,
        }
    }

    /// Store one byte, mapping its page if needed.
    fn set_byte(&mut self, addr: u64, b: u8)
        requires
            old(self).wf(),
        ensures
            final(self).wf(),
            forall|a: int| 0 <= a <= u64::MAX ==> #[trigger]
                final(self).byte(a) == if a == addr {
                    b
                } else {
                    old(self).byte(a)
                },
            forall|a: int| 0 <= a <= u64::MAX ==> #[trigger]
                final(self).mapped(a) == (old(self).mapped(a) || page_of(a) == page_of(
                    addr as int,
                )),
    {
        let (page, off) = split(addr);
        let ghost old_pages = self.pages();
        let mut p = match self.mem.remove(&page) {
            Some(p) => {
                assert(old_pages.contains_key(page) && old_pages[page] == p@);
                p
            },
            None => blank_page(),
        };
        p.set(off, b);
        self.mem.insert(page, p);
        proof {
            assert(self.pages() =~= old_pages.insert(page, p@));
            assert forall|a: int| 0 <= a <= u64::MAX implies #[trigger]
                self.byte(a) == if a == addr {
                    b
                } else {
                    old(self).byte(a)
                } by {
                if page_of(a) == page_of(addr as int) && a != addr {
                    assert(off_of(a) != off_of(addr as int));
                }
            }
        }
    }

    /// Read `width` bytes at `addr`, big endian, zero extended into a u64.
    pub fn read(&self, addr: u64, width: usize) -> (r: Result<u64>)
        requires
            self.wf(),
        ensures
            r is Ok <==> valid_width(width as int) && in_space(addr as int, width as int),
            r matches Ok(v) ==> v == be_val(self.bytes_at(addr as int, width as nat)),
            r matches Err(e) ==> e.0@ == access_fault_msg(addr, width as nat),
    {
        check_width(width)?;
        check_range(addr, width)?;
        let mut v: u64 = 0;
        let mut i: usize = 0;
        while i < width
            invariant
                self.wf(),
                i <= width <= 8,
                in_space(addr as int, width as int),
                v == be_val(self.bytes_at(addr as int, i as nat)),
                v < pow256(i as nat),
            decreases width - i,
        {
            let b = self.byte_at(addr + i as u64);
            proof {
                lemma_be_val_step(self.bytes_at(addr as int, (i + 1) as nat));
                assert(self.bytes_at(addr as int, (i + 1) as nat).drop_last() =~= self.bytes_at(
                    addr as int,
                    i as nat,
                ));
                lemma_pow256_step(i as nat);
                lemma_pow256_le8(i as nat + 1);
                assert(v * 256 + b < pow256(i as nat + 1)) by (nonlinear_arith)
                    requires
                        v < pow256(i as nat),
                        b < 256,
                        pow256(i as nat + 1) == 256 * pow256(i as nat),
                ;
            }
            v = v * 256 + b as u64;
            i += 1;
        }
        Ok(v)
    }

    /// Write the low `width` bytes of `val` at `addr`, big endian.
    pub fn write(&mut self, addr: u64, width: usize, val: u64) -> (r: Result<()>)
        requires
            old(self).wf(),
        ensures
            r is Ok <==> valid_width(width as int) && in_space(addr as int, width as int),
            r matches Err(e) ==> e.0@ == access_fault_msg(addr, width as nat),
            final(self).wf(),
            r is Err ==> *final(self) == *old(self),
            r is Ok ==> written(*old(self), *final(self), addr as int, width as nat, val as nat),
    {
        check_width(width)?;
        check_range(addr, width)?;
        let mut i: usize = 0;
        while i < width
            invariant
                self.wf(),
                i <= width <= 8,
                valid_width(width as int),
                in_space(addr as int, width as int),
                forall|a: int| 0 <= a <= u64::MAX ==> #[trigger]
                    self.byte(a) == if addr <= a < addr + i {
                        be_byte(val as nat, width as nat, (a - addr) as nat)
                    } else {
                        old(self).byte(a)
                    },
                forall|a: int| 0 <= a <= u64::MAX ==> #[trigger]
                    self.mapped(a) == (old(self).mapped(a) || (i > 0 && page_of(addr as int)
                        <= page_of(a) <= page_of(addr + i - 1))),
            decreases width - i,
        {
            let div = pow256_exec((width - 1 - i) as u32);
            let b = ((val / div) % 256) as u8;
            self.set_byte(addr + i as u64, b);
            i += 1;
        }
        Ok(())
    }

    /// Copy a byte image into memory starting at `addr`. Used to load a program.
    pub fn load(&mut self, addr: u64, bytes: &[u8]) -> (r: Result<()>)
        requires
            old(self).wf(),
        ensures
            r is Ok <==> in_space(addr as int, bytes@.len() as int),
            final(self).wf(),
            r is Err ==> *final(self) == *old(self),
            r is Ok ==> forall|a: int| 0 <= a <= u64::MAX ==> #[trigger]
                final(self).byte(a) == if addr <= a < addr + bytes@.len() {
                    bytes@[a - addr]
                } else {
                    old(self).byte(a)
                },
            r is Ok ==> forall|a: int| 0 <= a <= u64::MAX ==> #[trigger]
                final(self).mapped(a) == (old(self).mapped(a) || (bytes@.len() > 0 && page_of(
                    addr as int,
                ) <= page_of(a) <= page_of(addr + bytes@.len() - 1))),
    {
        check_range(addr, bytes.len())?;
        let mut i: usize = 0;
        while i < bytes.len()
            invariant
                self.wf(),
                i <= bytes@.len(),
                in_space(addr as int, bytes@.len() as int),
                forall|a: int| 0 <= a <= u64::MAX ==> #[trigger]
                    self.byte(a) == if addr <= a < addr + i {
                        bytes@[a - addr]
                    } else {
                        old(self).byte(a)
                    },
                forall|a: int| 0 <= a <= u64::MAX ==> #[trigger]
                    self.mapped(a) == (old(self).mapped(a) || (i > 0 && page_of(addr as int)
                        <= page_of(a) <= page_of(addr + i - 1))),
            decreases bytes.len() - i,
        {
            self.set_byte(addr + i as u64, bytes[i]);
            i += 1;
        }
        Ok(())
    }

    /// Whether the 64K page holding `addr` is backed by storage.
    pub fn is_mapped(&self, addr: u64) -> (b: bool)
        ensures
            b == self.mapped(addr as int),
    {
        self.mem.contains_key(&(addr / 0x1_0000))
    }

    /// How much of the address space is currently backed by real storage.
    pub fn stats(&self) -> (s: Stats)
        requires
            self.wf(),
            self.page_count() < PAGE_COUNT,
        ensures
            s.pages == self.page_count(),
            s.bytes == self.page_count() * PAGE_SIZE,
            self.page_count() == 0 ==> s.high == 0,
            self.page_count() > 0 ==> exists|p: u64|
                self.pages().contains_key(p) && (forall|q: u64|
                    self.pages().contains_key(q) ==> q <= p) && s.high == (p + 1) * PAGE_SIZE - 1,
    {
        let pages = self.mem.len();
        assert(self.pages().dom() =~= self.mem@.dom());
        let mut top: Option<u64> = None;
        for k in it: self.mem.keys()
            invariant
                self.wf(),
                it.seq().unref().to_set() == self.mem@.dom(),
                match top {
                    None => it.index() == 0,
                    Some(t) => self.mem@.dom().contains(t) && forall|j: int|
                        0 <= j < it.index() ==> *it.seq()[j] <= t,
                },
        {
            assert(it.seq().unref().to_set().contains(*it.seq()[it.index() as int]));
            top = match top {
                None => Some(*k),
                Some(t) => if *k > t {
                    Some(*k)
                } else {
                    Some(t)
                },
            };
        }
        let high = match top {
            None => 0,
            Some(p) => {
                assert(self.pages().contains_key(p));
                p * 0x1_0000 + 0xFFFF
            },
        };
        proof {
            if self.mem@.dom().len() == 0 {
            }
        }
        Stats { pages, bytes: pages as u64 * 0x1_0000, high }
    }

    /// Read `len` bytes starting at `addr` for display. Unmapped bytes read
    /// back as zero; bytes that would fall past the top of the address space
    /// are dropped, so the result can be shorter than `len`. This never fails.
    pub fn dump(&self, addr: u64, len: usize) -> (out: Vec<u8>)
        requires
            self.wf(),
        ensures
            out@.len() == if len as int <= u64::MAX - addr + 1 {
                len as int
            } else {
                u64::MAX - addr + 1
            },
            forall|i: int| 0 <= i < out@.len() ==> out@[i] == self.byte(addr + i),
    {
        let room = u64::MAX - addr;
        let n: usize = if len as u64 > room {
            (room + 1) as usize
        } else {
            len
        };
        let mut out: Vec<u8> = Vec::new();
        let mut i: usize = 0;
        while i < n
            invariant
                self.wf(),
                n <= len,
                n as int <= u64::MAX - addr + 1,
                i <= n,
                out@.len() == i,
                forall|j: int| 0 <= j < i ==> out@[j] == self.byte(addr + j),
            decreases n - i,
        {
            out.push(self.byte_at(addr + i as u64));
            i += 1;
        }
        out
    }
}

/// `256^n` for `n < 8`.
fn pow256_exec(n: u32) -> (r: u64)
    requires
        n < 8,
    ensures
        r == pow256(n as nat),
        r > 0,
{
    let mut r: u64 = 1;
    let mut i: u32 = 0;
    while i < n
        invariant
            i <= n < 8,
            r == pow256(i as nat),
        decreases n - i,
    {
        proof {
            lemma_pow256_step(i as nat);
            lemma_pow256_le8((i + 1) as nat);
            assert(r * 256 == pow256((i + 1) as nat));
            lemma_pow256_mono((i + 1) as nat, 7);
            assert(pow256(7) == 0x1_0000_0000_0000_00);
        }
        r = r * 256;
        i += 1;
    }
    proof {
        lemma_pow256_pos(n as nat);
    }
    r
}

pub proof fn lemma_pow256_step(n: nat)
    ensures
        pow256(n + 1) == 256 * pow256(n),
{
    assert(pow256(n + 1) == 256 * pow256(((n + 1) - 1) as nat));
}

pub proof fn lemma_pow256_pos(n: nat)
    ensures
        pow256(n) > 0,
    decreases n,
{
    if n > 0 {
        lemma_pow256_pos((n - 1) as nat);
    }
}

/// `256^n` fits in 64 bits for `n <= 8`, exactly at 8.
pub proof fn lemma_pow256_le8(n: nat)
    requires
        n <= 8,
    ensures
        pow256(n) <= pow256(8),
        pow256(8) == 0x1_0000_0000_0000_0000,
    decreases n,
{
    reveal_with_fuel(pow256, 9);
    if n < 8 {
        lemma_pow256_mono(n, 8);
    }
    if n <= 7 {
        lemma_pow256_mono(n, 7);
    }
}

pub proof fn lemma_pow256_mono(a: nat, b: nat)
    requires
        a <= b,
    ensures
        pow256(a) <= pow256(b),
    decreases b,
{
    if a < b {
        lemma_pow256_mono(a, (b - 1) as nat);
        lemma_pow256_step((b - 1) as nat);
        lemma_pow256_pos((b - 1) as nat);
    }
}

proof fn lemma_be_val_step(s: Seq<u8>)
    requires
        s.len() > 0,
    ensures
        be_val(s) == be_val(s.drop_last()) * 256 + s.last() as nat,
{
}

/// Reading back the `w`-byte big-endian form of `v` gives its low `w` bytes.
pub proof fn lemma_be_val_bytes(v: nat, w: nat)
    ensures
        be_val(be_bytes(v, w)) == v % pow256(w),
    decreases w,
{
    lemma_pow256_pos(w);
    if w == 0 {
        assert(be_bytes(v, 0).len() == 0);
    } else {
        let k = (w - 1) as nat;
        let b = be_bytes(v, w);
        let d = be_bytes(v / 256, k);
        assert forall|i: int| 0 <= i < k implies #[trigger] b.drop_last()[i] == d[i] by {
            lemma_pow256_pos((k - 1 - i) as nat);
            vstd::arithmetic::div_mod::lemma_div_denominator(
                v as int,
                256,
                pow256((k - 1 - i) as nat) as int,
            );
            lemma_pow256_step((k - 1 - i) as nat);
            assert((w - 1 - i) as nat == ((k - 1 - i) as nat + 1) as nat);
        }
        assert(b.drop_last() =~= d);
        assert(b.last() == (v % 256) as u8) by {
            assert(b.last() == b[k as int]);
            assert(b[k as int] == be_byte(v, w, k));
            assert((w - 1 - k) as nat == 0);
            assert(pow256(0) == 1);
            assert(v / 1 == v);
        }
        lemma_be_val_bytes(v / 256, k);
        lemma_pow256_step(k);
        lemma_pow256_pos(k);
        vstd::arithmetic::div_mod::lemma_mod_breakdown(v as int, 256, pow256(k) as int);
        assert(be_val(b) == be_val(d) * 256 + (v % 256));
        assert(be_val(d) * 256 == 256 * ((v / 256) % pow256(k)));
    }
}

/// A one-byte big-endian value is that byte.
pub proof fn lemma_be_val_one(s: Seq<u8>)
    requires
        s.len() == 1,
    ensures
        be_val(s) == s[0] as nat,
{
    assert(s.drop_last().len() == 0);
    assert(be_val(s.drop_last()) == 0);
    assert(s.last() == s[0]);
}

/// The fault message for an access of `width` bytes at `addr`: a width
/// the machine cannot move, or an access past the top of the address space.
pub open spec fn access_fault_msg(addr: u64, width: nat) -> Seq<char> {
    if !valid_width(width as int) {
        "access width must be 1, 2, 4 or 8 bytes, got "@ + crate::text::digits(width, 10)
    } else {
        "access at "@ + seq!['0', 'x'] + crate::text::zero_pad(crate::text::digits(addr as nat, 16), 16)
            + " for "@ + crate::text::digits(width, 10) + " bytes runs past the address space"@
    }
}

/// Widths the machine can move in a single access.
fn check_width(width: usize) -> (r: Result<()>)
    ensures
        r is Ok <==> valid_width(width as int),
        r matches Err(e) ==> e.0@ == access_fault_msg(0, width as nat),
{
    if width == 1 || width == 2 || width == 4 || width == 8 {
        Ok(())
    } else {
        let mut m = Msg::new("access width must be 1, 2, 4 or 8 bytes, got ");
        m.dec(width as u64);
        Err(m.error())
    }
}

/// Reject an access of `len` bytes at `addr` that runs past the top of the
/// address space.
fn check_range(addr: u64, len: usize) -> (r: Result<()>)
    ensures
        r is Ok <==> in_space(addr as int, len as int),
        valid_width(len as int) ==> (r matches Err(e) ==> e.0@ == access_fault_msg(addr, len as nat)),
{
    if len > 0 && (len - 1) as u64 > u64::MAX - addr {
        let mut m = Msg::new("access at ");
        m.hex(addr, 16);
        m.lit(" for ");
        m.dec(len as u64);
        m.lit(" bytes runs past the address space");
        return Err(m.error());
    }
    Ok(())
}

} // verus!
