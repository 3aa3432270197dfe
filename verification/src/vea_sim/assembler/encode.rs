//! The bytes of one laid-out instruction.
use crate::text;
use crate::vea_sim::assembler::insn::{
    InstructionFormat, Op, Slot, SlotV, BR_IMM, OPINFO_FLAG_ALSO_IMMEDIATE,
};
use crate::vea_sim::assembler::layout::{
    addr_cap, entries_below, entry_views, lookup, sym_value, tab_get,
};
use crate::vea_sim::assembler::lex::{self, fits_signed, imm_bytes_spec, imm_width, sext, REL_MAX};
use crate::vea_sim::assembler::parse::{slots_wf, Insn, InsnV};
use crate::vea_sim::memory::{be_bytes, be_val, pow256};
use vstd::prelude::*;

verus! {

/// The register bytes of an operand list, in order.
pub open spec fn regs_of(sl: Seq<SlotV>) -> Seq<u8>
    decreases sl.len(),
{
    if sl.len() == 0 {
        seq![]
    } else {
        regs_of(sl.drop_last()) + match sl.last() {
            SlotV::Reg(r) => seq![r],
            _ => seq![],
        }
    }
}

/// The low `w` bytes of `v` in two's complement, big endian.
pub open spec fn low_bytes(v: int, w: nat) -> Seq<u8> {
    be_bytes((v % pow256(w) as int) as nat, w)
}

/// The immediate bytes of one operand at an instruction: none for a
/// register, the shortest form of a number, and a label reference's value in
/// exactly its width.
pub open spec fn slot_bytes(sl: SlotV, e: Seq<(Seq<char>, int)>, i: InsnV) -> Option<Seq<u8>> {
    match sl {
        SlotV::Reg(_) => Some(seq![]),
        SlotV::Num(v) => Some(imm_bytes_spec(v as int)),
        SlotV::Sym { name, width } => match sym_value(e, name, i) {
            None => None,
            Some(v) => Some(low_bytes(v, width)),
        },
    }
}

/// The immediate bytes of an operand list, in order.
pub open spec fn imms_of(sl: Seq<SlotV>, e: Seq<(Seq<char>, int)>, i: InsnV) -> Option<Seq<u8>>
    decreases sl.len(),
{
    if sl.len() == 0 {
        Some(seq![])
    } else {
        match (imms_of(sl.drop_last(), e, i), slot_bytes(sl.last(), e, i)) {
            (Some(a), Some(b)) => Some(a + b),
            _ => None,
        }
    }
}

/// Formats whose trailing operand may be a register or an immediate.
pub open spec fn marks_imm(f: InstructionFormat) -> bool {
    f.inst_type == Op::R_R__OR__R_I || f.inst_type == Op::R_R_R__OR__R_R_IMM
}

/// The flag nibble: the format's own flags, bit 0 when the trailing operand
/// of a two- or three-operand format is an immediate, bit 3 when the target
/// of a one-operand format is an immediate.
pub open spec fn flags_of(i: InsnV) -> u8 {
    let a: u8 = if marks_imm(i.fmt) && i.slots.len() > 0 && !(i.slots.last() is Reg) {
        OPINFO_FLAG_ALSO_IMMEDIATE
    } else {
        0
    };
    let b: u8 = if i.fmt.inst_type == Op::R__OR__I && i.slots.len() > 0 && !(i.slots[0] is Reg) {
        BR_IMM
    } else {
        0
    };
    (i.fmt.flags & 0xF) | a | b
}

/// The frame of an instruction: opcode, `length << 4 | flags`, registers,
/// immediates. `None` when a label is unknown, the frame would be longer
/// than fifteen bytes, or a branch offset is wider than four bytes.
pub open spec fn encode_spec(i: InsnV, e: Seq<(Seq<char>, int)>) -> Option<Seq<u8>> {
    match imms_of(i.slots, e, i) {
        None => None,
        Some(imm) => {
            let regs = regs_of(i.slots);
            let total = 2 + regs.len() + imm.len();
            if total > 15 {
                None
            } else if i.fmt.opcode == 0x30 && imm.len() > REL_MAX {
                None
            } else {
                Some(seq![i.fmt.opcode, (total * 16 + flags_of(i)) as u8] + regs + imm)
            }
        },
    }
}

/// `low_bytes` for a 64-bit value.
pub fn low_bytes_exec(v: i64, w: usize) -> (out: Vec<u8>)
    requires
        w <= 8,
    ensures
        out@ == low_bytes(v as int, w as nat),
{
    let m = lex::pow256_u128(w);
    proof {
        crate::vea_sim::memory::lemma_pow256_pos(w as nat);
        crate::vea_sim::memory::lemma_pow256_le8(w as nat);
    }
    let vi = v as i128;
    let mi = m as i128;
    let u: i128 = match vi.checked_rem_euclid(mi) {
        Some(u) => u,
        None => 0,
    };
    proof {
        vstd::arithmetic::div_mod::lemma_mod_bound(vi as int, mi as int);
    }
    lex::be_bytes_exec(u as u128, w)
}

proof fn lemma_flags_small(x: u8, a: u8, b: u8)
    requires
        a == 0 || a == 1,
        b == 0 || b == 8,
    ensures
        ((x & 0xF) | a | b) < 16,
{
    assert(((x & 0xF) | a | b) < 16) by (bit_vector)
        requires
            a == 0 || a == 1,
            b == 0 || b == 8,
    ;
}

/// Emit the final bytes for one instruction.
pub fn encode(insn: &Insn, syms: &Vec<(Vec<char>, u64)>) -> (r: Result<Vec<u8>, String>)
    requires
        slots_wf(insn.fmt, insn@.slots),
        insn.addr < addr_cap(),
        entries_below(entry_views(syms@), addr_cap()),
    ensures
        match encode_spec(insn@, entry_views(syms@)) {
            Some(b) => r is Ok && r.unwrap()@ == b,
            None => r is Err,
        },
{
    let ghost iv = insn@;
    let ghost ev = entry_views(syms@);
    let f = insn.fmt;
    let rel = f.opcode == 0x30;
    let mut regs: Vec<u8> = Vec::new();
    let mut imm: Vec<u8> = Vec::new();
    let mut j: usize = 0;
    while j < insn.slots.len()
        invariant
            iv == insn@,
            ev == entry_views(syms@),
            rel == (iv.fmt.opcode == 0x30),
            slots_wf(insn.fmt, iv.slots),
            insn.addr < addr_cap(),
            entries_below(ev, addr_cap()),
            j <= iv.slots.len(),
            regs@ == regs_of(iv.slots.take(j as int)),
            imms_of(iv.slots.take(j as int), ev, iv) == Some(imm@),
            imm@.len() <= 8 * j,
        decreases iv.slots.len() - j,
    {
        let ghost sv = iv.slots[j as int];
        proof {
            assert(sv == insn.slots@[j as int]@);
            assert(iv.slots.take(j + 1).drop_last() == iv.slots.take(j as int));
            assert(iv.slots.take(j + 1).last() == sv);
        }
        match &insn.slots[j] {
            Slot::Reg(r) => {
                regs.push(*r);
            },
            Slot::Num(v) => {
                let mut b = lex::imm_bytes(*v);
                imm.append(&mut b);
            },
            Slot::Sym { name, width } => {
                let t = match tab_get(syms, name.as_slice()) {
                    Some(t) => t,
                    None => {
                        proof {
                            assert(imms_of(iv.slots.take(j + 1), ev, iv) is None);
                            lemma_imms_prefix(iv.slots, ev, iv, j + 1);
                        }
                        let mut m = crate::vea_sim::error::Msg::new("unknown label '");
                        m.chars(name.as_slice());
                        m.lit("'");
                        return Err(m.string());
                    },
                };
                proof {
                    lemma_lookup_cap(ev, name@);
                    assert(*width <= 8);
                }
                let value: i64 = if rel {
                    t as i64 - insn.addr as i64
                } else {
                    t as i64
                };
                let mut b = low_bytes_exec(value, *width);
                imm.append(&mut b);
            },
        }
        j += 1;
    }
    proof {
        assert(iv.slots.take(j as int) == iv.slots);
    }
    let a: u8 = if (matches!(f.inst_type, Op::R_R__OR__R_I) || matches!(
        f.inst_type,
        Op::R_R_R__OR__R_R_IMM,
    )) && insn.slots.len() > 0 && !matches!(insn.slots[insn.slots.len() - 1], Slot::Reg(_)) {
        OPINFO_FLAG_ALSO_IMMEDIATE
    } else {
        0
    };
    let b: u8 = if matches!(f.inst_type, Op::R__OR__I) && insn.slots.len() > 0 && !matches!(
        insn.slots[0],
        Slot::Reg(_),
    ) {
        BR_IMM
    } else {
        0
    };
    proof {
        if iv.slots.len() > 0 {
            assert(iv.slots.last() == iv.slots[iv.slots.len() - 1]);
            assert(iv.slots.last() == insn.slots@[insn.slots@.len() - 1]@);
            assert(iv.slots[0] == insn.slots@[0]@);
        }
        lemma_flags_small(f.flags, a, b);
        lemma_regs_len(iv.slots);
    }
    let flags: u8 = (f.flags & 0xF) | a | b;
    assert(flags == flags_of(iv));
    let total = 2 + regs.len() + imm.len();
    if total > 15 {
        let mut m = crate::vea_sim::error::Msg::new("instruction of ");
        m.dec(total as u64);
        m.lit(" bytes exceeds 15");
        return Err(m.string());
    }
    if f.opcode == 0x30 && imm.len() > REL_MAX {
        return Err(
            text::string_of(text::str_chars("branch offset exceeds a 32 bit signed value").as_slice()),
        );
    }
    let mut out: Vec<u8> = Vec::new();
    out.push(f.opcode);
    out.push((total as u8) * 16 + flags);
    out.append(&mut regs);
    out.append(&mut imm);
    Ok(out)
}

proof fn lemma_imms_prefix(sl: Seq<SlotV>, e: Seq<(Seq<char>, int)>, i: InsnV, m: int)
    requires
        0 <= m <= sl.len(),
        imms_of(sl.take(m), e, i) is None,
    ensures
        imms_of(sl, e, i) is None,
    decreases sl.len() - m,
{
    if m < sl.len() {
        assert(sl.take(m + 1).drop_last() == sl.take(m));
        lemma_imms_prefix(sl, e, i, m + 1);
    } else {
        assert(sl.take(m) == sl);
    }
}

proof fn lemma_regs_len(sl: Seq<SlotV>)
    ensures
        regs_of(sl).len() <= sl.len(),
    decreases sl.len(),
{
    if sl.len() > 0 {
        lemma_regs_len(sl.drop_last());
    }
}

proof fn lemma_lookup_cap(e: Seq<(Seq<char>, int)>, name: Seq<char>)
    requires
        entries_below(e, addr_cap()),
    ensures
        lookup(e, name) matches Some(a) ==> 0 <= a < addr_cap(),
    decreases e.len(),
{
    if e.len() > 0 {
        assert(e.last() == e[e.len() - 1]);
        lemma_lookup_cap(e.drop_last(), name);
    }
}

/// The length nibble of every encoded frame is the frame's own length.
pub proof fn lemma_frame_len(i: InsnV, e: Seq<(Seq<char>, int)>)
    requires
        encode_spec(i, e) is Some,
    ensures
        encode_spec(i, e).unwrap().len() <= 15,
        encode_spec(i, e).unwrap()[1] / 16 == encode_spec(i, e).unwrap().len(),
        encode_spec(i, e).unwrap()[0] == i.fmt.opcode,
        encode_spec(i, e).unwrap()[1] % 16 == flags_of(i),
{
    let imm = imms_of(i.slots, e, i).unwrap();
    let regs = regs_of(i.slots);
    let total = 2 + regs.len() + imm.len();
    lemma_flags_small(i.fmt.flags, if marks_imm(i.fmt) && i.slots.len() > 0 && !(
    i.slots.last() is Reg) {
        1u8
    } else {
        0u8
    }, if i.fmt.inst_type == Op::R__OR__I && i.slots.len() > 0 && !(i.slots[0] is Reg) {
        8u8
    } else {
        0u8
    });
    assert(encode_spec(i, e).unwrap().len() == total);
}

/// Sign-extending the low `w` bytes of a value that fits in `w` signed bytes
/// gives the value back.
pub proof fn lemma_low_bytes_sext(v: int, w: nat)
    requires
        1 <= w <= 8,
        fits_signed(v, w),
    ensures
        sext(be_val(low_bytes(v, w)), w) == v,
{
    let p = pow256(w) as int;
    crate::vea_sim::memory::lemma_pow256_pos(w);
    crate::vea_sim::memory::lemma_pow256_step((w - 1) as nat);
    let u = v % p;
    vstd::arithmetic::div_mod::lemma_mod_bound(v, p);
    crate::vea_sim::memory::lemma_be_val_bytes(u as nat, w);
    vstd::arithmetic::div_mod::lemma_small_mod(u as nat, p as nat);
    if v >= 0 {
        vstd::arithmetic::div_mod::lemma_small_mod(v as nat, p as nat);
    } else {
        vstd::arithmetic::div_mod::lemma_mod_add_multiples_vanish(v, p);
        vstd::arithmetic::div_mod::lemma_small_mod((v + p) as nat, p as nat);
    }
}

/// `fits_signed` grows with the width.
pub proof fn lemma_fits_mono(v: int, a: nat, b: nat)
    requires
        a <= b,
        fits_signed(v, a),
    ensures
        fits_signed(v, b),
{
    crate::vea_sim::memory::lemma_pow256_mono(a, b);
}

/// A nonzero value fits in its own shortest width, when that is below eight
/// bytes or the value is a 64-bit one.
pub proof fn lemma_imm_width_fits(v: int)
    requires
        i64::MIN <= v <= i64::MAX,
    ensures
        fits_signed(v, imm_width(v)) || v == 0,
        imm_width(v) <= 8,
{
    if imm_width(v) == 8 && v != 0 {
        crate::vea_sim::memory::lemma_pow256_le8(8);
    }
}

} // verus!
