//! One parsed instruction to bytes. A literal immediate is sized from its
//! value; a label reference gets an 8-byte zero placeholder and a `Fixup`
//! telling the assembler where to write the address later.
use crate::assembler::ast::{Instr, InstrV, Operand, OperandV};
use crate::assembler::err::Result;
use crate::assembler::isa::format::{shape_spec, Form};
use crate::assembler::isa::framing::{frame, frame_spec};
use crate::assembler::isa::opcodes::{by_mnemonic, by_mnemonic_spec, find_mnemonic, instructions_spec, InstrDef};
use crate::assembler::isa::table_laws::law_table_lookups;
use crate::text::spec_lower;
use crate::text;
use crate::vea_sim::assembler::encode::{low_bytes, low_bytes_exec};
use vstd::prelude::*;

verus! {

/// Width, in bytes, of a label address once backfilled.
pub const ADDR_WIDTH: usize = 8;

pub struct Encoded {
    pub bytes: Vec<u8>,
    /// Set when the instruction references a label.
    pub fixup: Option<Fixup>,
}

pub struct Fixup {
    /// Offset of the immediate field within `bytes`.
    pub at: usize,
    pub symbol: String,
}

/// Smallest of 0, 1, 2, 4, 8 bytes that holds `v` read as signed or
/// unsigned; 16 for values that do not fit in 64 bits.
pub open spec fn min_width_spec(v: int) -> u8 {
    if v == 0 {
        0
    } else if -0x80 <= v <= 0xFF {
        1
    } else if -0x8000 <= v <= 0xFFFF {
        2
    } else if -0x8000_0000 <= v <= 0xFFFF_FFFF {
        4
    } else if -0x8000_0000_0000_0000 <= v <= 0xFFFF_FFFF_FFFF_FFFF {
        8
    } else {
        16
    }
}

/// Smallest byte count that can hold `v`, read as either signed or unsigned.
pub fn min_width(v: i128) -> (w: u8)
    ensures
        w == min_width_spec(v as int),
{
    if v == 0 {
        0
    } else if -0x80 <= v && v <= 0xFF {
        1
    } else if -0x8000 <= v && v <= 0xFFFF {
        2
    } else if -0x8000_0000 <= v && v <= 0xFFFF_FFFF {
        4
    } else if -0x8000_0000_0000_0000 <= v && v <= 0xFFFF_FFFF_FFFF_FFFF {
        8
    } else {
        16
    }
}

/// The low `width` bytes of `v`, big endian.
fn be_bytes(v: i128, width: u8) -> (out: Vec<u8>)
    requires
        width <= 8,
    ensures
        out@ == low_bytes(v as int, width as nat),
{
    let m = crate::vea_sim::assembler::lex::pow256_u128(width as usize);
    proof {
        crate::vea_sim::memory::lemma_pow256_pos(width as nat);
        crate::vea_sim::memory::lemma_pow256_le8(width as nat);
    }
    let mi = m as i128;
    let u: i128 = match v.checked_rem_euclid(mi) {
        Some(u) => u,
        None => 0,
    };
    proof {
        vstd::arithmetic::div_mod::lemma_mod_bound(v as int, mi as int);
    }
    crate::vea_sim::assembler::lex::be_bytes_exec(u as u128, width as usize)
}

/// The immediate an instruction carries.
pub enum ImmArg {
    Absent,
    Int(i128),
    Sym(String),
}

/// An immediate in spec form.
pub enum ImmV {
    Absent,
    Int(i128),
    Sym(Seq<char>),
}

impl View for ImmArg {
    type V = ImmV;

    open spec fn view(&self) -> ImmV {
        match self {
            ImmArg::Absent => ImmV::Absent,
            ImmArg::Int(v) => ImmV::Int(*v),
            ImmArg::Sym(s) => ImmV::Sym(s@),
        }
    }
}

/// A register operand's index.
pub open spec fn reg_of(o: OperandV) -> Option<u8> {
    match o {
        OperandV::Reg(r) => Some(r),
        _ => None,
    }
}

/// An immediate-or-label operand.
pub open spec fn imm_of(o: OperandV) -> Option<ImmV> {
    match o {
        OperandV::Int(v) => Some(ImmV::Int(v)),
        OperandV::Sym(s) => Some(ImmV::Sym(s)),
        _ => None,
    }
}

/// The register bytes and the immediate of operands matched against a form.
pub open spec fn operands_for_spec(form: Form, ops: Seq<OperandV>) -> Option<(Seq<u8>, ImmV)> {
    match form {
        Form::Nullary => if ops.len() == 0 {
            Some((seq![], ImmV::Absent))
        } else {
            None
        },
        Form::R => if ops.len() == 1 && reg_of(ops[0]) is Some {
            Some((seq![reg_of(ops[0]).unwrap()], ImmV::Absent))
        } else {
            None
        },
        Form::RR => if ops.len() == 2 && reg_of(ops[0]) is Some && reg_of(ops[1]) is Some {
            Some((seq![reg_of(ops[0]).unwrap(), reg_of(ops[1]).unwrap()], ImmV::Absent))
        } else {
            None
        },
        Form::RRR => if ops.len() == 3 && reg_of(ops[0]) is Some && reg_of(ops[1]) is Some && reg_of(
            ops[2],
        ) is Some {
            Some(
                (
                    seq![reg_of(ops[0]).unwrap(), reg_of(ops[1]).unwrap(), reg_of(ops[2]).unwrap()],
                    ImmV::Absent,
                ),
            )
        } else {
            None
        },
        Form::RI => if ops.len() == 2 && reg_of(ops[0]) is Some && imm_of(ops[1]) is Some {
            Some((seq![reg_of(ops[0]).unwrap()], imm_of(ops[1]).unwrap()))
        } else {
            None
        },
        Form::RRI => if ops.len() == 3 && reg_of(ops[0]) is Some && reg_of(ops[1]) is Some && imm_of(
            ops[2],
        ) is Some {
            Some((seq![reg_of(ops[0]).unwrap(), reg_of(ops[1]).unwrap()], imm_of(ops[2]).unwrap()))
        } else {
            None
        },
        Form::I => if ops.len() == 1 && imm_of(ops[0]) is Some {
            Some((seq![], imm_of(ops[0]).unwrap()))
        } else {
            None
        },
        Form::RMem => if ops.len() == 2 && reg_of(ops[0]) is Some {
            match ops[1] {
                OperandV::Mem { base, disp } => Some(
                    (seq![reg_of(ops[0]).unwrap(), base], ImmV::Int(disp)),
                ),
                _ => None,
            }
        } else {
            None
        },
    }
}

/// The message for an operand count that does not fit the form.
pub open spec fn want_msg(n: nat, got: nat) -> Seq<char> {
    "expected "@ + text::digits(n, 10) + " operand(s), got "@ + text::digits(got, 10)
}

fn want(n: usize, got: usize) -> (r: Result<()>)
    ensures
        r is Ok <==> n == got,
        r matches Err(e) ==> e@ == want_msg(n as nat, got as nat),
{
    if n == got {
        Ok(())
    } else {
        let mut m = crate::vea_sim::error::Msg::new("expected ");
        m.dec(n as u64);
        m.lit(" operand(s), got ");
        m.dec(got as u64);
        Err(m.string())
    }
}

fn reg(o: &Operand) -> (r: Result<u8>)
    ensures
        match reg_of(o@) {
            Some(x) => r matches Ok(y) && y == x,
            None => r is Err,
        },
        r matches Err(e) ==> e@ == "expected a register"@,
{
    match o {
        Operand::Reg(r) => Ok(*r),
        _ => Err(text::string_of(text::str_chars("expected a register").as_slice())),
    }
}

fn imm(o: &Operand) -> (r: Result<ImmArg>)
    ensures
        match imm_of(o@) {
            Some(x) => r matches Ok(y) && y@ == x,
            None => r is Err,
        },
        r matches Err(e) ==> e@ == "expected an immediate or label"@,
{
    match o {
        Operand::Int(v) => Ok(ImmArg::Int(*v)),
        Operand::Sym(s) => {
            let c = text::str_chars(s.as_str());
            Ok(ImmArg::Sym(text::string_of(c.as_slice())))
        },
        _ => Err(text::string_of(text::str_chars("expected an immediate or label").as_slice())),
    }
}

/// The message for operands that do not fit the form: a wrong count, then
/// the first operand of the wrong kind.
pub open spec fn operands_for_err(form: Form, ops: Seq<OperandV>) -> Seq<char> {
    let n: nat = match form {
        Form::Nullary => 0,
        Form::R => 1,
        Form::RR => 2,
        Form::RRR => 3,
        Form::RI => 2,
        Form::RRI => 3,
        Form::I => 1,
        Form::RMem => 2,
    };
    let regs: nat = match form {
        Form::R => 1,
        Form::RR => 2,
        Form::RRR => 3,
        Form::RI => 1,
        Form::RRI => 2,
        Form::RMem => 1,
        _ => 0,
    };
    if ops.len() != n {
        want_msg(n, ops.len())
    } else if exists|i: int| 0 <= i < regs && #[trigger] reg_of(ops[i]) is None {
        "expected a register"@
    } else if form == Form::RMem {
        "expected `[rb + disp]`"@
    } else {
        "expected an immediate or label"@
    }
}

/// Match operands against the form: (register bytes, immediate argument).
#[verifier::rlimit(40)]
fn operands_for(form: Form, ops: &Vec<Operand>) -> (r: Result<(Vec<u8>, ImmArg)>)
    ensures
        match operands_for_spec(form, ops@.map_values(|o: Operand| o@)) {
            Some((rs, im)) => r matches Ok((a, b)) && a@ == rs && b@ == im,
            None => r is Err,
        },
        r matches Err(e) ==> e@ == operands_for_err(form, ops@.map_values(|o: Operand| o@)),
{
    let ghost ov = ops@.map_values(|o: Operand| o@);
    match form {
        Form::Nullary => {
            want(0, ops.len())?;
            Ok((Vec::new(), ImmArg::Absent))
        },
        Form::R => {
            want(1, ops.len())?;
            assert(ov[0] == ops@[0]@);
            let a = reg(&ops[0])?;
            let mut v: Vec<u8> = Vec::new();
            v.push(a);
            Ok((v, ImmArg::Absent))
        },
        Form::RR => {
            want(2, ops.len())?;
            assert(ov[0] == ops@[0]@ && ov[1] == ops@[1]@);
            let a = reg(&ops[0])?;
            let b = reg(&ops[1])?;
            let mut v: Vec<u8> = Vec::new();
            v.push(a);
            v.push(b);
            Ok((v, ImmArg::Absent))
        },
        Form::RRR => {
            want(3, ops.len())?;
            assert(ov[0] == ops@[0]@ && ov[1] == ops@[1]@ && ov[2] == ops@[2]@);
            let a = reg(&ops[0])?;
            let b = reg(&ops[1])?;
            let c = reg(&ops[2])?;
            let mut v: Vec<u8> = Vec::new();
            v.push(a);
            v.push(b);
            v.push(c);
            Ok((v, ImmArg::Absent))
        },
        Form::RI => {
            want(2, ops.len())?;
            assert(ov[0] == ops@[0]@ && ov[1] == ops@[1]@);
            let a = reg(&ops[0])?;
            let i = imm(&ops[1])?;
            let mut v: Vec<u8> = Vec::new();
            v.push(a);
            Ok((v, i))
        },
        Form::RRI => {
            want(3, ops.len())?;
            assert(ov[0] == ops@[0]@ && ov[1] == ops@[1]@ && ov[2] == ops@[2]@);
            let a = reg(&ops[0])?;
            let b = reg(&ops[1])?;
            let i = imm(&ops[2])?;
            let mut v: Vec<u8> = Vec::new();
            v.push(a);
            v.push(b);
            Ok((v, i))
        },
        Form::I => {
            want(1, ops.len())?;
            assert(ov[0] == ops@[0]@);
            let i = imm(&ops[0])?;
            Ok((Vec::new(), i))
        },
        Form::RMem => {
            want(2, ops.len())?;
            assert(ov[0] == ops@[0]@ && ov[1] == ops@[1]@);
            let rd = reg(&ops[0])?;
            match &ops[1] {
                Operand::Mem { base, disp } => {
                    let mut v: Vec<u8> = Vec::new();
                    v.push(rd);
                    v.push(*base);
                    Ok((v, ImmArg::Int(*disp)))
                },
                _ => Err(text::string_of(text::str_chars("expected `[rb + disp]`").as_slice())),
            }
        },
    }
}

/// The immediate bytes and the fixup (offset of the immediate within the
/// frame, and the label) of an instruction with `nregs` register bytes.
pub open spec fn imm_bytes_of(im: ImmV, nregs: nat) -> Option<(Seq<u8>, Option<(nat, Seq<char>)>)> {
    match im {
        ImmV::Absent => Some((seq![], None)),
        ImmV::Int(v) => if min_width_spec(v as int) > 8 {
            None
        } else {
            Some((low_bytes(v as int, min_width_spec(v as int) as nat), None))
        },
        ImmV::Sym(s) => Some((Seq::new(ADDR_WIDTH as nat, |i: int| 0u8), Some((2 + nregs, s)))),
    }
}

/// The frame of an instruction and its fixup; `None` for an unknown
/// mnemonic, operands that do not match the form, or an immediate wider than
/// 64 bits.
pub open spec fn build_spec(ins: InstrV) -> Option<(Seq<u8>, Option<(nat, Seq<char>)>)> {
    match by_mnemonic_spec(ins.mnemonic) {
        None => None,
        Some(def) => match operands_for_spec(def.form, ins.operands) {
            None => None,
            Some((regs, im)) => match imm_bytes_of(im, regs.len()) {
                None => None,
                Some((ib, fx)) => match frame_spec(def.opcode, def.flags, regs, ib) {
                    None => None,
                    Some(b) => Some((b, fx)),
                },
            },
        },
    }
}

/// The message for an immediate that does not fit in 64 bits, with its
/// value in decimal.
fn immediate_too_wide(v: i128) -> (s: String)
    ensures
        s@ == "immediate "@ + (if v < 0 {
            seq!['-'] + text::digits((-v) as nat, 10)
        } else {
            text::digits(v as nat, 10)
        }) + " does not fit in 64 bits"@,
{
    let mut m = crate::vea_sim::error::Msg::new("immediate ");
    let mag: u128 = if v < 0 {
        m.lit("-");
        if v == i128::MIN {
            0x8000_0000_0000_0000_0000_0000_0000_0000u128
        } else {
            (-v) as u128
        }
    } else {
        v as u128
    };
    let ds = text::fmt_dec_u128(mag);
    m.chars(ds.as_slice());
    m.lit(" does not fit in 64 bits");
    proof {
        reveal_strlit("-");
    }
    m.string()
}

/// The message for an instruction that does not encode: an unknown
/// mnemonic, operands that do not fit the form, or an immediate wider than
/// 64 bits.
pub open spec fn build_err(ins: InstrV) -> Seq<char> {
    match by_mnemonic_spec(ins.mnemonic) {
        None => "unknown instruction `"@ + ins.mnemonic + "`"@,
        Some(def) => match operands_for_spec(def.form, ins.operands) {
            None => operands_for_err(def.form, ins.operands),
            Some((_, im)) => match im {
                ImmV::Int(v) => "immediate "@ + (if v < 0 {
                    seq!['-'] + text::digits((-v) as nat, 10)
                } else {
                    text::digits(v as nat, 10)
                }) + " does not fit in 64 bits"@,
                _ => seq![],
            },
        },
    }
}

/// A row the lookup finds has a flags nibble.
proof fn lemma_found_flags(rows: Seq<InstrDef>, m: Seq<char>, i: int)
    requires
        forall|k: int| 0 <= k < rows.len() ==> (#[trigger] rows[k]).flags <= 0xF,
    ensures
        find_mnemonic(rows, m, i) matches Some(d) ==> d.flags <= 0xF,
    decreases rows.len() - i,
{
    if 0 <= i < rows.len() {
        lemma_found_flags(rows, m, i + 1);
    }
}

/// Framing never refuses what the lookup and the operands hand it.
proof fn lemma_frame_fits(ins: InstrV)
    requires
        by_mnemonic_spec(ins.mnemonic) matches Some(def) && operands_for_spec(def.form, ins.operands) matches Some(
            (regs, im),
        ) && imm_bytes_of(im, regs.len()) is Some,
    ensures
        ({
            let def = by_mnemonic_spec(ins.mnemonic).unwrap();
            let (regs, im) = operands_for_spec(def.form, ins.operands).unwrap();
            frame_spec(def.opcode, def.flags, regs, imm_bytes_of(im, regs.len()).unwrap().0) is Some
        }),
{
    let t = instructions_spec();
    assert forall|k: int| 0 <= k < t.len() implies (#[trigger] t[k]).flags <= 0xF by {
        law_table_lookups(k, t[k].mnemonic@);
    }
    lemma_found_flags(t, spec_lower(ins.mnemonic), 0);
    let def = by_mnemonic_spec(ins.mnemonic).unwrap();
    let (regs, im) = operands_for_spec(def.form, ins.operands).unwrap();
    assert(regs.len() <= 3);
    assert(im !is Absent ==> regs.len() <= 2);
}

/// Encode one instruction.
pub fn build(ins: &Instr) -> (r: Result<Encoded>)
    ensures
        match build_spec(ins@) {
            Some((b, fx)) => r matches Ok(e) && e.bytes@ == b && match fx {
                None => e.fixup is None,
                Some((a, s)) => e.fixup matches Some(f) && f.at == a && f.symbol@ == s,
            },
            None => r is Err,
        },
        r matches Err(e) ==> e@ == build_err(ins@),
{
    let def = match by_mnemonic(ins.mnemonic.as_str()) {
        Some(d) => d,
        None => {
            let mut m = crate::vea_sim::error::Msg::new("unknown instruction `");
            let c = text::str_chars(ins.mnemonic.as_str());
            m.chars(c.as_slice());
            m.lit("`");
            return Err(m.string());
        },
    };
    let (regs, im) = operands_for(def.form, &ins.operands)?;
    let (ib, sym): (Vec<u8>, Option<String>) = match im {
        ImmArg::Absent => (Vec::new(), None),
        ImmArg::Int(v) => {
            let w = min_width(v);
            if w > 8 {
                return Err(immediate_too_wide(v));
            }
            (be_bytes(v, w), None)
        },
        ImmArg::Sym(name) => {
            let mut z: Vec<u8> = Vec::new();
            let mut i: usize = 0;
            while i < ADDR_WIDTH
                invariant
                    i <= ADDR_WIDTH,
                    z@ == Seq::new(i as nat, |j: int| 0u8),
                decreases ADDR_WIDTH - i,
            {
                z.push(0);
                i += 1;
                assert(z@ =~= Seq::new(i as nat, |j: int| 0u8));
            }
            (z, Some(name))
        },
    };
    proof {
        lemma_frame_fits(ins@);
    }
    let bytes = frame(def.opcode, def.flags, regs.as_slice(), ib.as_slice())?;
    let fixup = match sym {
        None => None,
        Some(symbol) => Some(Fixup { at: 2 + regs.len(), symbol }),
    };
    Ok(Encoded { bytes, fixup })
}

/// A frame is at most 13 bytes, and a fixup's 8-byte slot lies inside it.
pub proof fn lemma_build_len(ins: InstrV)
    requires
        build_spec(ins) is Some,
    ensures
        build_spec(ins).unwrap().0.len() <= 13,
        build_spec(ins).unwrap().1 matches Some((off, _)) ==> off + 8 <= build_spec(ins).unwrap().0.len(),
{
    let def = by_mnemonic_spec(ins.mnemonic).unwrap();
    let (regs, im) = operands_for_spec(def.form, ins.operands).unwrap();
    assert(regs.len() <= 3);
    let (ib, fx) = imm_bytes_of(im, regs.len()).unwrap();
    assert(ib.len() <= 8) by {
        if im is Int {
            assert(min_width_spec(im->Int_0 as int) <= 8);
        }
    }
}

} // verus!
