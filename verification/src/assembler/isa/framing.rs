//! How the bytes of one instruction are laid out:
//! `[opcode:1] [PLEN:4 | FLAGS:4] [payload: PLEN bytes]`, where the payload
//! is one byte per register operand (source order) followed by a contiguous
//! big-endian immediate of 0, 1, 2, 4 or 8 bytes. Frames start 2-byte
//! aligned; the pad byte between frames belongs to neither.
use crate::text;
use vstd::prelude::*;

verus! {

/// Padding byte; also NOP.
pub const OPCODE_PAD_NOP: u8 = 0x00;

/// Halts the processor.
pub const OPCODE_HALT: u8 = 0xFF;

/// PLEN is the high 4 bits of byte 1.
pub const PLEN_MASK: u8 = 0xF0;

/// FLAGS is the low 4 bits of byte 1.
pub const FLAGS_MASK: u8 = 0x0F;

/// Largest payload PLEN can describe.
pub const PLEN_MAX: usize = 15;

/// Instruction start alignment, in bytes.
pub const INSTR_ALIGN: u64 = 2;

/// Register operand byte: index in the low 5 bits, top 3 reserved.
pub const REG_INDEX_MASK: u8 = 0x1F;

/// Byte 1 from PLEN and FLAGS.
pub fn pack_len_flags(plen: u8, flags: u8) -> (b: u8)
    requires
        plen < 16,
    ensures
        b == plen * 16 + flags % 16,
{
    plen * 16 + flags % 16
}

/// Byte 1 split back into (PLEN, FLAGS).
pub fn unpack_len_flags(b: u8) -> (r: (u8, u8))
    ensures
        r == (b / 16, b % 16),
{
    (b / 16, b % 16)
}

/// Packing then unpacking gives back PLEN and the flags nibble.
pub proof fn law_pack_unpack(plen: u8, flags: u8)
    requires
        plen < 16,
    ensures
        ((plen * 16 + flags % 16) as u8 / 16, (plen * 16 + flags % 16) as u8 % 16) == (plen, flags % 16),
{
}

/// One register operand byte.
pub fn reg_byte(index: u8) -> (b: u8)
    ensures
        b == index % 32,
{
    index % 32
}

/// Immediates are 0, 1, 2, 4 or 8 bytes.
pub open spec fn imm_len_ok(n: nat) -> bool {
    n == 0 || n == 1 || n == 2 || n == 4 || n == 8
}

/// The frame of one instruction (no alignment pad); `None` when the
/// immediate has another length, the flags leave the nibble, or the payload
/// is longer than PLEN can say.
pub open spec fn frame_spec(opcode: u8, flags: u8, regs: Seq<u8>, imm: Seq<u8>) -> Option<Seq<u8>> {
    if !imm_len_ok(imm.len()) || flags > 0xF || regs.len() + imm.len() > PLEN_MAX {
        None
    } else {
        Some(
            seq![opcode, ((regs.len() + imm.len()) * 16 + flags) as u8] + regs.map_values(
                |r: u8| (r % 32) as u8,
            ) + imm,
        )
    }
}

/// Lay out one full instruction frame.
pub fn frame(opcode: u8, flags: u8, regs: &[u8], imm: &[u8]) -> (r: Result<Vec<u8>, String>)
    ensures
        match frame_spec(opcode, flags, regs@, imm@) {
            Some(b) => r matches Ok(v) && v@ == b,
            None => r is Err,
        },
{
    let n = imm.len();
    if !(n == 0 || n == 1 || n == 2 || n == 4 || n == 8) {
        let mut m = crate::vea_sim::error::Msg::new("immediate must be 0/1/2/4/8 bytes, got ");
        m.dec(n as u64);
        return Err(m.string());
    }
    if flags > 0xF {
        let mut m = crate::vea_sim::error::Msg::new("flags nibble ");
        m.hex(flags as u64, 0);
        m.lit(" out of range");
        return Err(m.string());
    }
    if regs.len() > PLEN_MAX || n > PLEN_MAX - regs.len() {
        let mut m = crate::vea_sim::error::Msg::new("payload ");
        m.dec((regs.len() as u64).wrapping_add(n as u64));
        m.lit(" bytes exceeds PLEN max 15");
        return Err(m.string());
    }
    let plen = regs.len() + n;
    let mut out: Vec<u8> = Vec::new();
    out.push(opcode);
    out.push(pack_len_flags(plen as u8, flags));
    let mut i: usize = 0;
    while i < regs.len()
        invariant
            i <= regs@.len(),
            out@ == seq![opcode, (plen * 16 + flags) as u8] + regs@.take(i as int).map_values(
                |r: u8| (r % 32) as u8,
            ),
        decreases regs.len() - i,
    {
        out.push(reg_byte(regs[i]));
        i += 1;
        assert(regs@.take(i as int).map_values(|r: u8| (r % 32) as u8) =~= regs@.take(
            (i - 1) as int,
        ).map_values(|r: u8| (r % 32) as u8).push((regs@[i - 1] % 32) as u8));
    }
    assert(regs@.take(i as int) == regs@);
    let mut j: usize = 0;
    let ghost mid = out@;
    while j < n
        invariant
            j <= imm@.len(),
            n == imm@.len(),
            out@ == mid + imm@.take(j as int),
        decreases n - j,
    {
        out.push(imm[j]);
        j += 1;
        assert(imm@.take(j as int) =~= imm@.take((j - 1) as int).push(imm@[j - 1]));
    }
    assert(imm@.take(j as int) == imm@);
    Ok(out)
}

} // verus!
