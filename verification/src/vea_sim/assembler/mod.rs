//! Parsing and assembling Vea source into its byte image.
//!
//! Every line is parsed, label widths are relaxed to a fixed point so each
//! address is known, then bytes are emitted. Every instruction is padded with
//! zeroes to the next alignment boundary, so a flat image matches the fetch
//! rule `PC = round_up(PC + length, ALIGNMENT)`.
pub mod lex;
pub mod insn;
pub mod parse;
pub mod layout;
pub mod encode;

pub use insn::InstructionFormat;

use crate::text::{self, digits, zero_pad};
use crate::vea_sim::assembler::encode::{encode, encode_spec, imms_of, lemma_frame_len, regs_of, slot_bytes};
use crate::vea_sim::assembler::insn::SlotV;
use crate::vea_sim::assembler::layout::{
    addr_cap, entries_below, entry_views, insn_size, layout_end, lower, lower_spec, lower_spec_shape,
    prog_wf, slots_size,
};
use crate::vea_sim::assembler::parse::{insn_views, parse_msg, parse_spec, InsnV};
use crate::vea_sim::isa::{self, spec_align_up};
use vstd::prelude::*;

verus! {

/// One assembled instruction: where it sits in the flat image, the bytes it
/// encoded to (no alignment padding), and the source text it came from.
#[derive(Debug, Clone)]
pub struct ListingRow {
    pub addr: u64,
    pub bytes: Vec<u8>,
    pub text: String,
}

/// The frames of a laid-out program, or `None` if one fails to encode.
pub open spec fn encode_all(r: Seq<InsnV>, e: Seq<(Seq<char>, int)>) -> Option<Seq<Seq<u8>>>
    decreases r.len(),
{
    if r.len() == 0 {
        Some(seq![])
    } else {
        match (encode_all(r.drop_last(), e), encode_spec(r.last(), e)) {
            (Some(a), Some(b)) => Some(a.push(b)),
            _ => None,
        }
    }
}

/// The instructions of a source text after layout, with their frames.
pub open spec fn assemble_spec(src: Seq<char>) -> Option<(Seq<InsnV>, Seq<Seq<u8>>)> {
    match lower_spec(src) {
        None => None,
        Some((r, e)) => match encode_all(r, e) {
            None => None,
            Some(bs) => Some((r, bs)),
        },
    }
}

/// Zero bytes after a frame of `n` bytes, up to the alignment boundary.
pub open spec fn pad_len(n: nat) -> nat {
    (spec_align_up(n as int, 4) - n) as nat
}

/// The flat image: each frame followed by its padding.
pub open spec fn image_of(bs: Seq<Seq<u8>>) -> Seq<u8>
    decreases bs.len(),
{
    if bs.len() == 0 {
        seq![]
    } else {
        image_of(bs.drop_last()) + bs.last() + Seq::new(pad_len(bs.last().len()), |i: int| 0u8)
    }
}

/// Two lower-case hex digits.
pub open spec fn hex_byte(b: u8) -> Seq<char> {
    zero_pad(digits(b as nat, 16), 2)
}

/// Space-separated lower-case hex.
pub open spec fn hex_spec(bs: Seq<u8>) -> Seq<char>
    decreases bs.len(),
{
    if bs.len() == 0 {
        seq![]
    } else if bs.len() == 1 {
        hex_byte(bs[0])
    } else {
        hex_spec(bs.drop_last()) + seq![' '] + hex_byte(bs.last())
    }
}

/// `s` padded with spaces on the right to at least `w` characters.
pub open spec fn pad_right(s: Seq<char>, w: nat) -> Seq<char> {
    if s.len() >= w {
        s
    } else {
        s + Seq::new((w - s.len()) as nat, |i: int| ' ')
    }
}

/// One listing line: the address in eight hex digits, the frame's bytes in a
/// 23-column field, the source text.
pub open spec fn listing_line(addr: nat, bytes: Seq<u8>, txt: Seq<char>) -> Seq<char> {
    zero_pad(digits(addr, 16), 8) + seq![' ', ' '] + pad_right(hex_spec(bytes), 23) + seq![' ', ' ']
        + txt
}

/// Space separated lowercase hex, handy for tests and CLI output.
pub fn hex(bytes: &[u8]) -> (s: String)
    ensures
        s@ == hex_spec(bytes@),
{
    let mut out: Vec<char> = Vec::new();
    let mut i: usize = 0;
    while i < bytes.len()
        invariant
            i <= bytes@.len(),
            out@ == hex_spec(bytes@.take(i as int)),
        decreases bytes.len() - i,
    {
        let ghost prev = out@;
        if i > 0 {
            out.push(' ');
        }
        let mut d = text::fmt_radix(bytes[i] as u64, 16, 2);
        out.append(&mut d);
        i += 1;
        proof {
            let t = bytes@.take(i as int);
            assert(t.drop_last() == bytes@.take(i - 1));
            assert(t.last() == bytes@[i - 1]);
            if i == 1 {
                assert(t.len() == 1 && t[0] == bytes@[0]);
                assert(prev =~= Seq::<char>::empty());
                assert(out@ =~= hex_byte(t[0]));
            } else {
                assert(out@ =~= prev + seq![' '] + hex_byte(t.last()));
            }
        }
    }
    assert(bytes@.take(i as int) == bytes@);
    text::string_of(out.as_slice())
}

/// The views of a list of byte vectors.
pub open spec fn byte_views(v: Seq<Vec<u8>>) -> Seq<Seq<u8>> {
    v.map_values(|b: Vec<u8>| b@)
}

#[verifier::spinoff_prover]
fn encode_lowered(
    insns: &Vec<crate::vea_sim::assembler::parse::Insn>,
    syms: &Vec<(Vec<char>, u64)>,
) -> (r: Result<Vec<Vec<u8>>, String>)
    requires
        lower_spec_shape(insn_views(insns@), entry_views(syms@)),
    ensures
        match encode_all(insn_views(insns@), entry_views(syms@)) {
            Some(bs) => r is Ok && byte_views(r.unwrap()@) == bs,
            None => r is Err,
        },
{
    let ghost s = insn_views(insns@);
    let ghost ev = entry_views(syms@);
    let mut out: Vec<Vec<u8>> = Vec::new();
    let mut k: usize = 0;
    while k < insns.len()
        invariant
            s == insn_views(insns@),
            ev == entry_views(syms@),
            lower_spec_shape(s, ev),
            k <= s.len(),
            encode_all(s.take(k as int), ev) == Some(byte_views(out@)),
        decreases s.len() - k,
    {
        let ghost prev = byte_views(out@);
        proof {
            assert(insns@[k as int]@ == s[k as int]);
            assert(s.take(k + 1).drop_last() == s.take(k as int));
            assert(s.take(k + 1).last() == s[k as int]);
            assert(slots_wf_at(s, k as int));
            assert(0 <= s[k as int].addr < addr_cap());
            assert(insns@[k as int].addr == s[k as int].addr);
        }
        let b = match encode(&insns[k], syms) {
            Ok(b) => b,
            Err(e) => {
                let mut m = crate::vea_sim::error::Msg::new("line ");
                m.dec(insns[k].line as u64);
                m.lit(": ");
                let cs = text::str_chars(e.as_str());
                m.chars(cs.as_slice());
                proof {
                    lemma_encode_all_prefix(s, ev, k + 1);
                }
                return Err(m.string());
            },
        };
        proof {
            assert(byte_views(out@.push(b)) =~= prev.push(b@));
        }
        out.push(b);
        k += 1;
    }
    assert(s.take(k as int) == s);
    Ok(out)
}

spec fn slots_wf_at(s: Seq<InsnV>, k: int) -> bool {
    crate::vea_sim::assembler::parse::slots_wf(s[k].fmt, s[k].slots)
}

/// Every frame of a program is its instruction's encoding, and no longer
/// than fifteen bytes.
pub proof fn lemma_encode_all(r: Seq<InsnV>, e: Seq<(Seq<char>, int)>)
    requires
        encode_all(r, e) is Some,
    ensures
        encode_all(r, e).unwrap().len() == r.len(),
        forall|k: int|
            0 <= k < r.len() ==> encode_spec(r[k], e) == Some(#[trigger] encode_all(r, e).unwrap()[k]),
        forall|k: int| 0 <= k < r.len() ==> #[trigger] encode_all(r, e).unwrap()[k].len() <= 15,
    decreases r.len(),
{
    if r.len() > 0 {
        lemma_encode_all(r.drop_last(), e);
        assert forall|k: int| 0 <= k < r.len() implies encode_spec(r[k], e) == Some(
            #[trigger] encode_all(r, e).unwrap()[k],
        ) by {
            if k < r.len() - 1 {
                assert(r[k] == r.drop_last()[k]);
            }
        }
        assert forall|k: int| 0 <= k < r.len() implies #[trigger] encode_all(r, e).unwrap()[k].len()
            <= 15 by {
            assert(encode_spec(r[k], e) == Some(encode_all(r, e).unwrap()[k]));
            lemma_frame_len(r[k], e);
        }
    }
}

proof fn lemma_encode_all_prefix(s: Seq<InsnV>, e: Seq<(Seq<char>, int)>, m: int)
    requires
        0 <= m <= s.len(),
        encode_all(s.take(m), e) is None,
    ensures
        encode_all(s, e) is None,
    decreases s.len() - m,
{
    if m < s.len() {
        assert(s.take(m + 1).drop_last() == s.take(m));
        lemma_encode_all_prefix(s, e, m + 1);
    } else {
        assert(s.take(m) == s);
    }
}

fn pad_right_exec(s: &mut Vec<char>, w: usize)
    ensures
        final(s)@ == pad_right(old(s)@, w as nat),
{
    let ghost s0 = s@;
    while s.len() < w
        invariant
            s@.len() >= s0.len(),
            s0.len() < w ==> s@.len() <= w,
            s0.len() >= w ==> s@.len() == s0.len(),
            s@ == s0 + Seq::new((s@.len() - s0.len()) as nat, |i: int| ' '),
        decreases w - s.len(),
    {
        s.push(' ');
        assert(s@ =~= s0 + Seq::new((s@.len() - s0.len()) as nat, |i: int| ' '));
    }
    proof {
        if s0.len() >= w {
            assert(s@.len() == s0.len());
            assert(s@ =~= s0);
        }
    }
}

/// Assemble source text into a flat load-ready image plus a structured
/// listing, one row per instruction.
/// A source that does not parse is refused with the message of its first
/// bad statement; the text of a later (layout or encoding) error is not
/// stated here.
pub fn assemble_listing(src: &str) -> (r: Result<(Vec<u8>, Vec<ListingRow>), String>)
    requires
        src@.len() <= i32::MAX,
    ensures
        r is Ok <==> assemble_spec(src@) is Some,
        parse_spec(src@) is None ==> (r matches Err(e) && e@ == parse_msg(src@)),
        r matches Ok((image, rows)) ==> {
            let (ins, bs) = assemble_spec(src@).unwrap();
            &&& image@ == image_of(bs)
            &&& rows@.len() == bs.len() == ins.len()
            &&& forall|k: int|
                0 <= k < rows@.len() ==> #[trigger] rows@[k].addr == ins[k].addr && rows@[k].bytes@
                    == bs[k] && rows@[k].text@ == ins[k].text
        },
{
    let cs = text::str_chars(src);
    let (insns, syms) = lower(cs.as_slice())?;
    let frames = encode_lowered(&insns, &syms)?;
    let ghost ins = insn_views(insns@);
    let ghost bs = byte_views(frames@);
    proof {
        lemma_encode_all(ins, entry_views(syms@));
    }
    let mut image: Vec<u8> = Vec::new();
    let mut rows: Vec<ListingRow> = Vec::new();
    let mut k: usize = 0;
    while k < frames.len()
        invariant
            ins == insn_views(insns@),
            bs == byte_views(frames@),
            bs.len() == ins.len(),
            forall|q: int| 0 <= q < bs.len() ==> #[trigger] bs[q].len() <= 15,
            k <= bs.len(),
            image@ == image_of(bs.take(k as int)),
            rows@.len() == k,
            forall|q: int|
                0 <= q < k ==> #[trigger] rows@[q].addr == ins[q].addr && rows@[q].bytes@ == bs[q]
                    && rows@[q].text@ == ins[q].text,
        decreases bs.len() - k,
    {
        let ghost before = image@;
        let b = &frames[k];
        assert(b@ == bs[k as int]);
        let mut i: usize = 0;
        while i < b.len()
            invariant
                i <= b@.len(),
                image@ == before + b@.take(i as int),
            decreases b.len() - i,
        {
            image.push(b[i]);
            i += 1;
            assert(b@.take(i as int) =~= b@.take(i - 1).push(b@[i - 1]));
        }
        assert(b@.take(i as int) == b@);
        proof {
            isa::lemma_align_up(b@.len() as int, 4);
        }
        let padded = isa::align_up(b.len() as u64, 4) as usize;
        let ghost mid = image@;
        let mut p: usize = b.len();
        while p < padded
            invariant
                b@.len() <= p <= padded,
                image@ == mid + Seq::new((p - b@.len()) as nat, |q: int| 0u8),
            decreases padded - p,
        {
            image.push(0u8);
            p += 1;
            assert(image@ =~= mid + Seq::new((p - b@.len()) as nat, |q: int| 0u8));
        }
        proof {
            let t = bs.take(k + 1);
            assert(t.drop_last() == bs.take(k as int));
            assert(t.last() == bs[k as int]);
        }
        let bytes = copy_bytes(b);
        let txt = text::string_of(insns[k].text.as_slice());
        assert(insns@[k as int]@ == ins[k as int]);
        rows.push(ListingRow { addr: insns[k].addr, bytes, text: txt });
        k += 1;
    }
    assert(bs.take(k as int) == bs);
    Ok((image, rows))
}

fn copy_bytes(b: &Vec<u8>) -> (out: Vec<u8>)
    ensures
        out@ == b@,
{
    let mut out: Vec<u8> = Vec::new();
    let mut i: usize = 0;
    while i < b.len()
        invariant
            i <= b@.len(),
            out@ == b@.take(i as int),
        decreases b.len() - i,
    {
        out.push(b[i]);
        i += 1;
        assert(b@.take(i as int) =~= b@.take(i - 1).push(b@[i - 1]));
    }
    assert(b@.take(i as int) == b@);
    out
}

/// Assemble source text into a flat load-ready image, with a one-line-per
/// instruction listing for debug output.
/// A source that does not parse is refused with the message of its first
/// bad statement; the text of a later (layout or encoding) error is not
/// stated here.
pub fn assemble(src: &str) -> (r: Result<(Vec<u8>, Vec<String>), String>)
    requires
        src@.len() <= i32::MAX,
    ensures
        r is Ok <==> assemble_spec(src@) is Some,
        parse_spec(src@) is None ==> (r matches Err(e) && e@ == parse_msg(src@)),
        r matches Ok((image, lines)) ==> {
            let (ins, bs) = assemble_spec(src@).unwrap();
            &&& image@ == image_of(bs)
            &&& lines@.len() == bs.len()
            &&& forall|k: int|
                0 <= k < lines@.len() ==> #[trigger] lines@[k]@ == listing_line(
                    ins[k].addr as nat,
                    bs[k],
                    ins[k].text,
                )
        },
{
    let res = assemble_listing(src);
    let (image, rows) = match res {
        Ok(p) => p,
        Err(e) => {
            return Err(e);
        },
    };
    let ghost ab = assemble_spec(src@).unwrap();
    assert(forall|q: int|
        0 <= q < rows@.len() ==> #[trigger] rows@[q].addr == ab.0[q].addr && rows@[q].bytes@
            == ab.1[q] && rows@[q].text@ == ab.0[q].text);
    let mut lines: Vec<String> = Vec::new();
    let mut k: usize = 0;
    while k < rows.len()
        invariant
            k <= rows@.len(),
            lines@.len() == k,
            rows@.len() == ab.1.len() == ab.0.len(),
            forall|q: int|
                0 <= q < rows@.len() ==> #[trigger] rows@[q].addr == ab.0[q].addr && rows@[q].bytes@
                    == ab.1[q] && rows@[q].text@ == ab.0[q].text,
            forall|q: int|
                0 <= q < k ==> #[trigger] lines@[q]@ == listing_line(
                    ab.0[q].addr as nat,
                    ab.1[q],
                    ab.0[q].text,
                ),
        decreases rows.len() - k,
    {
        let r = &rows[k];
        let mut l = text::fmt_radix(r.addr, 16, 8);
        l.push(' ');
        l.push(' ');
        let h = hex(r.bytes.as_slice());
        let mut hv = text::str_chars(h.as_str());
        pad_right_exec(&mut hv, 23);
        l.append(&mut hv);
        l.push(' ');
        l.push(' ');
        let mut tv = text::str_chars(r.text.as_str());
        l.append(&mut tv);
        let ghost want = listing_line(ab.0[k as int].addr as nat, ab.1[k as int], ab.0[k as int].text);
        assert(l@ =~= want);
        lines.push(text::string_of(l.as_slice()));
        k += 1;
    }
    Ok((image, lines))
}

/// Assemble and hand back each instruction's own bytes with no alignment
/// padding.
/// A source that does not parse is refused with the message of its first
/// bad statement; the text of a later (layout or encoding) error is not
/// stated here.
pub fn assemble_raw(src: &str) -> (r: Result<Vec<Vec<u8>>, String>)
    requires
        src@.len() <= i32::MAX,
    ensures
        r is Ok <==> assemble_spec(src@) is Some,
        r matches Ok(v) ==> byte_views(v@) == assemble_spec(src@).unwrap().1,
        parse_spec(src@) is None ==> (r matches Err(e) && e@ == parse_msg(src@)),
{
    let cs = text::str_chars(src);
    let (insns, syms) = lower(cs.as_slice())?;
    encode_lowered(&insns, &syms)
}

proof fn lemma_bytes_lockstep(sl: Seq<SlotV>, e: Seq<(Seq<char>, int)>, i: InsnV)
    requires
        imms_of(sl, e, i) is Some,
    ensures
        regs_of(sl).len() + imms_of(sl, e, i).unwrap().len() == slots_size(sl),
    decreases sl.len(),
{
    if sl.len() > 0 {
        lemma_bytes_lockstep(sl.drop_last(), e, i);
    }
}

/// An encoded frame is exactly as long as the layout reserved for it.
pub proof fn lemma_frame_size(i: InsnV, e: Seq<(Seq<char>, int)>)
    requires
        encode_spec(i, e) is Some,
    ensures
        encode_spec(i, e).unwrap().len() == insn_size(i),
{
    lemma_bytes_lockstep(i.slots, e, i);
}

proof fn lemma_image_prefix(bs: Seq<Seq<u8>>, m: int)
    requires
        0 <= m <= bs.len(),
    ensures
        image_of(bs.take(m)).len() <= image_of(bs).len(),
        image_of(bs).take(image_of(bs.take(m)).len() as int) == image_of(bs.take(m)),
    decreases bs.len() - m,
{
    if m == bs.len() {
        assert(bs.take(m) == bs);
    } else {
        lemma_image_prefix(bs, m + 1);
        assert(bs.take(m + 1).drop_last() == bs.take(m));
        let a = image_of(bs.take(m));
        let b = image_of(bs.take(m + 1));
        assert(b.take(a.len() as int) =~= a);
    }
}

proof fn lemma_image_len(r: Seq<InsnV>, bs: Seq<Seq<u8>>, m: int)
    requires
        0 <= m <= r.len() == bs.len(),
        forall|k: int| 0 <= k < r.len() ==> (#[trigger] bs[k]).len() == insn_size(r[k]),
    ensures
        image_of(bs.take(m)).len() == layout_end(r.take(m)),
    decreases m,
{
    if m > 0 {
        lemma_image_len(r, bs, m - 1);
        assert(bs.take(m).drop_last() == bs.take(m - 1));
        assert(r.take(m).drop_last() == r.take(m - 1));
        assert(bs.take(m).last() == bs[m - 1]);
        assert(r.take(m).last() == r[m - 1]);
        isa::lemma_align_up(bs[m - 1].len() as int, 4);
    }
}

proof fn lemma_layout_facts(ins: Seq<InsnV>, bs: Seq<Seq<u8>>)
    requires
        ins == layout::placed(ins),
        bs.len() == ins.len(),
        forall|k: int| 0 <= k < ins.len() ==> (#[trigger] bs[k]).len() == insn_size(ins[k]),
    ensures
        ins.len() > 0 ==> ins[0].addr == 0,
        forall|k: int|
            0 <= k < ins.len() - 1 ==> #[trigger] ins[k + 1].addr == ins[k].addr + spec_align_up(
                bs[k].len() as int,
                isa::ALIGNMENT as int,
            ),
        forall|k: int|
            0 <= k < ins.len() ==> image_of(bs).subrange(
                ins[k].addr,
                ins[k].addr + (#[trigger] bs[k]).len(),
            ) == bs[k],
{
    if ins.len() > 0 {
        assert(ins[0] == layout::placed(ins)[0]);
        assert(ins.take(0).len() == 0);
    }
    assert forall|k: int| 0 <= k < ins.len() - 1 implies #[trigger] ins[k + 1].addr == ins[k].addr
        + spec_align_up(bs[k].len() as int, isa::ALIGNMENT as int) by {
        assert(ins[k + 1] == layout::placed(ins)[k + 1]);
        assert(ins[k] == layout::placed(ins)[k]);
        assert(ins.take(k + 1).drop_last() == ins.take(k));
        assert(ins.take(k + 1).last() == ins[k]);
    }
    assert forall|k: int| 0 <= k < ins.len() implies image_of(bs).subrange(
        ins[k].addr,
        ins[k].addr + (#[trigger] bs[k]).len(),
    ) == bs[k] by {
        lemma_image_at(ins, bs, k);
    }
}

proof fn lemma_image_at(ins: Seq<InsnV>, bs: Seq<Seq<u8>>, k: int)
    requires
        ins == layout::placed(ins),
        bs.len() == ins.len(),
        forall|q: int| 0 <= q < ins.len() ==> (#[trigger] bs[q]).len() == insn_size(ins[q]),
        0 <= k < ins.len(),
    ensures
        image_of(bs).subrange(ins[k].addr, ins[k].addr + bs[k].len()) == bs[k],
{
    assert(ins[k] == layout::placed(ins)[k]);
    lemma_image_len(ins, bs, k);
    lemma_image_prefix(bs, k + 1);
    assert(bs.take(k + 1).drop_last() == bs.take(k));
    assert(bs.take(k + 1).last() == bs[k]);
    let a = image_of(bs.take(k));
    let b = image_of(bs.take(k + 1));
    let lo = a.len() as int;
    let hi = lo + bs[k].len();
    assert(b.subrange(lo, hi) =~= bs[k]);
    assert(image_of(bs).subrange(lo, hi) =~= b.subrange(lo, hi));
}

/// The layout facts of a program and its frames: the first instruction is
/// at address 0, each next one at the previous address plus its frame length
/// rounded up to the alignment, each frame's length nibble is its length,
/// and the image holds each frame at its instruction's address.
pub open spec fn image_layout_holds(ins: Seq<InsnV>, bs: Seq<Seq<u8>>) -> bool {
    &&& bs.len() == ins.len()
    &&& ins.len() > 0 ==> ins[0].addr == 0
    &&& forall|k: int|
        0 <= k < ins.len() - 1 ==> #[trigger] ins[k + 1].addr == ins[k].addr + spec_align_up(
            bs[k].len() as int,
            isa::ALIGNMENT as int,
        )
    &&& forall|k: int|
        0 <= k < ins.len() ==> (#[trigger] bs[k]).len() <= 15 && bs[k][1] / 16 == bs[k].len()
            && bs[k][0] == ins[k].fmt.opcode
    &&& forall|k: int|
        0 <= k < ins.len() ==> image_of(bs).subrange(ins[k].addr, ins[k].addr + (#[trigger] bs[k]).len())
            == bs[k]
}

proof fn lemma_frames(ins: Seq<InsnV>, e: Seq<(Seq<char>, int)>, bs: Seq<Seq<u8>>)
    requires
        encode_all(ins, e) == Some(bs),
    ensures
        bs.len() == ins.len(),
        forall|k: int| 0 <= k < ins.len() ==> (#[trigger] bs[k]).len() == insn_size(ins[k]),
        forall|k: int|
            0 <= k < ins.len() ==> (#[trigger] bs[k]).len() <= 15 && bs[k][1] / 16 == bs[k].len()
                && bs[k][0] == ins[k].fmt.opcode,
{
    lemma_encode_all(ins, e);
    assert forall|k: int| 0 <= k < ins.len() implies (#[trigger] bs[k]).len() == insn_size(ins[k]) by {
        assert(encode_spec(ins[k], e) == Some(bs[k]));
        lemma_frame_size(ins[k], e);
    }
    assert forall|k: int| 0 <= k < ins.len() implies (#[trigger] bs[k]).len() <= 15 && bs[k][1] / 16
        == bs[k].len() && bs[k][0] == ins[k].fmt.opcode by {
        assert(encode_spec(ins[k], e) == Some(bs[k]));
        lemma_frame_len(ins[k], e);
    }
}

/// The image keeps the fetch rule (see `image_layout_holds`).
pub proof fn law_image_layout(src: Seq<char>)
    requires
        assemble_spec(src) is Some,
    ensures
        image_layout_holds(assemble_spec(src).unwrap().0, assemble_spec(src).unwrap().1),
{
    let (r, e) = lower_spec(src).unwrap();
    let bs = encode_all(r, e).unwrap();
    assert(assemble_spec(src).unwrap() == (r, bs));
    let (s, tr) = crate::vea_sim::assembler::parse::parse_spec(src).unwrap();
    layout::lemma_relax_converged(s, tr, (s.len() + 2) as nat);
    assert(r == relax_of(src));
    lemma_frames(r, e, bs);
    lemma_layout_facts(r, bs);
}

spec fn relax_of(src: Seq<char>) -> Seq<InsnV> {
    let (s, tr) = crate::vea_sim::assembler::parse::parse_spec(src).unwrap();
    layout::relax(s, tr, (s.len() + 2) as nat).unwrap()
}

/// The pipelined simulator's front end reads every frame the assembler
/// emits at its true length: the length nibble of each assembled frame
/// decodes to that frame's byte count.
pub proof fn law_frame_len_matches_assembler(src: Seq<char>, k: int)
    requires
        assemble_spec(src) is Some,
        0 <= k < assemble_spec(src).unwrap().1.len(),
    ensures
        crate::vea_sim::nstep::frame_len_spec(assemble_spec(src).unwrap().1[k][1]) == Some(
            assemble_spec(src).unwrap().1[k].len(),
        ),
{
    let (r, e) = lower_spec(src).unwrap();
    let bs = encode_all(r, e).unwrap();
    assert(assemble_spec(src).unwrap() == (r, bs));
    lemma_frames(r, e, bs);
    assert(bs[k].len() == insn_size(r[k]));
}

/// The operands of a well-formed instruction take at most ten bytes: a
/// register byte for each operand but the last, and at most eight for the
/// last.
proof fn lemma_slots_size_wf(f: crate::vea_sim::assembler::insn::InstructionFormat, s: Seq<SlotV>)
    requires
        crate::vea_sim::assembler::parse::slots_wf(f, s),
    ensures
        slots_size(s) <= 10,
{
    reveal_with_fuel(slots_size, 4);
    assert forall|j: int| 0 <= j < s.len() implies #[trigger] layout::slot_size(s[j]) <= 8 by {
        match s[j] {
            SlotV::Num(v) => {},
            _ => {},
        }
    }
    if s.len() == 3 {
        assert(s.drop_last().drop_last().drop_last() =~= Seq::<SlotV>::empty());
        assert(s.drop_last().last() == s[1] && s.drop_last().drop_last().last() == s[0]);
    } else if s.len() == 2 {
        assert(s.drop_last().drop_last() =~= Seq::<SlotV>::empty());
        assert(s.drop_last().last() == s[0]);
    } else if s.len() == 1 {
        assert(s.drop_last() =~= Seq::<SlotV>::empty());
    }
}

/// Every frame the assembler emits is two to twelve bytes long: the opcode
/// and opinfo bytes, a byte for each register operand ahead of the last
/// operand, and at most eight for the last.
pub proof fn law_frame_size(src: Seq<char>, k: int)
    requires
        src.len() <= i32::MAX,
        assemble_spec(src) is Some,
        0 <= k < assemble_spec(src).unwrap().1.len(),
    ensures
        2 <= assemble_spec(src).unwrap().1[k].len() <= 12,
{
    let (r, e) = lower_spec(src).unwrap();
    let bs = encode_all(r, e).unwrap();
    assert(assemble_spec(src).unwrap() == (r, bs));
    lemma_frames(r, e, bs);
    assert(bs[k].len() == insn_size(r[k]));
    assert(layout::lower_spec_shape(r, e)) by {
        layout::lemma_lower_shape(src);
    }
    assert(slots_wf_at(r, k));
    lemma_slots_size_wf(r[k].fmt, r[k].slots);
}

/// Every label reference of an assembled program reads back, sign-extended
/// from the bytes it was given, as the label's address (for `jmp` and other
/// absolute uses) or as the distance from the branch to the label (for `b`
/// and its variants).
pub proof fn law_label_references(src: Seq<char>, k: int, j: int)
    requires
        src.len() <= i32::MAX,
        assemble_spec(src) is Some,
        0 <= k < assemble_spec(src).unwrap().0.len(),
        0 <= j < assemble_spec(src).unwrap().0[k].slots.len(),
        assemble_spec(src).unwrap().0[k].slots[j] is Sym,
    ensures
        ({
            let ins = assemble_spec(src).unwrap().0;
            let e = lower_spec(src).unwrap().1;
            let i = ins[k];
            let sl = i.slots[j];
            let t = layout::lookup(e, sl->Sym_name);
            &&& t is Some
            &&& slot_bytes(sl, e, i) is Some
            &&& lex::sext(crate::vea_sim::memory::be_val(slot_bytes(sl, e, i).unwrap()), sl->Sym_width)
                == if i.fmt.opcode == 0x30 {
                t.unwrap() - i.addr
            } else {
                t.unwrap()
            }
        }),
{
    let (ins, e) = lower_spec(src).unwrap();
    let (s, tr) = crate::vea_sim::assembler::parse::parse_spec(src).unwrap();
    layout::lemma_relax_converged(s, tr, (s.len() + 2) as nat);
    let i = ins[k];
    let sl = i.slots[j];
    assert(layout::insn_ok(i, e));
    assert(!layout::insn_grows(i, e));
    assert(layout::slot_need(i.slots[j], e, i) is Some);
    let v = layout::sym_value(e, sl->Sym_name, i).unwrap();
    let w = sl->Sym_width;
    let n = layout::slot_need(sl, e, i).unwrap();
    assert(n <= w);
    assert(layout::lower_spec_shape(ins, e)) by {
        layout::lemma_lower_shape(src);
    }
    assert(slots_wf_at(ins, k));
    layout::lemma_lookup_in(e, sl->Sym_name);
    assert(-0x100_0000_0000 < v < 0x100_0000_0000);
    encode::lemma_imm_width_fits(v);
    if v != 0 {
        encode::lemma_fits_mono(v, lex::imm_width(v), w);
    } else {
        crate::vea_sim::memory::lemma_pow256_pos(w);
        crate::vea_sim::memory::lemma_pow256_step((w - 1) as nat);
    }
    encode::lemma_low_bytes_sext(v, w);
}

} // verus!
