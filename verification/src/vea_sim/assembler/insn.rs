//! The instruction table, one parsed instruction, and its byte encoding.
//!
//! Every instruction is `[opcode][length:4 | flags:4][registers][immediate]`,
//! big endian. The length nibble counts the whole frame, opcode and opinfo
//! bytes included, but not the alignment padding after it.
use crate::text::{self, trim};
use crate::vea_sim::assembler::lex::{self, imm_bytes_spec, imm_spec, is_ident_spec, reg_spec};
use crate::vea_sim::error::Msg;
use crate::vea_sim::memory::{be_bytes, pow256};
use vstd::prelude::*;

verus! {

/// Branch predicates, carried in the flag nibble so one opcode covers them.
pub const BR_ALWAYS: u8 = 0x0;

pub const BR_EQ: u8 = 0x1;

pub const BR_NE: u8 = 0x2;

pub const BR_LT: u8 = 0x3;

pub const BR_GE: u8 = 0x4;

pub const BR_GT: u8 = 0x5;

pub const BR_LE: u8 = 0x6;

/// Branch flag bits [2:0] hold the predicate.
pub const BR_MASK: u8 = 0b0111;

/// Branch flag bit 3 is set when the target is an immediate.
pub const BR_IMM: u8 = 0b1000;

/// The trailing operand is an immediate rather than a register.
pub const OPINFO_FLAG_ALSO_IMMEDIATE: u8 = 0b0001;

/// Load/store access size in flag bits [2:1]; 8 bytes by default.
pub const LS_SIZE_D: u8 = 0b0000;

pub const LS_SIZE_B: u8 = 0b0010;

pub const LS_SIZE_H: u8 = 0b0100;

pub const LS_SIZE_W: u8 = 0b0110;

/// Sign-extend a narrow load.
pub const LS_SEXT: u8 = 0b1000;

/// Operand shape of an instruction.
#[allow(non_camel_case_types)]
#[derive(Debug, Clone, Copy, PartialEq, Eq)]
pub enum Op {
    /// nop, halt, trap
    NULL,
    /// one operand: a register or an immediate
    R__OR__I,
    /// a register, then a register or an immediate
    R_R__OR__R_I,
    /// two registers, then a register or an immediate
    R_R_R__OR__R_R_IMM,
}

/// One row of the instruction table.
#[derive(Debug, Clone, Copy)]
pub struct InstructionFormat {
    pub mnemonic: &'static str,
    pub opcode: u8,
    pub inst_type: Op,
    pub flags: u8,
}

/// A table row.
pub open spec fn row(mnemonic: &'static str, opcode: u8, inst_type: Op, flags: u8) -> InstructionFormat {
    InstructionFormat { mnemonic, opcode, inst_type, flags }
}

/// The instruction table.
pub open spec fn instructions_spec() -> Seq<InstructionFormat> {
    seq![
        row("nop", 0x00, Op::NULL, 0),
        row("trap", 0xFE, Op::NULL, 0),
        row("halt", 0xFF, Op::NULL, 0),
        row("mov", 0x01, Op::R_R__OR__R_I, 0),
        row("add", 0x10, Op::R_R_R__OR__R_R_IMM, 0),
        row("sub", 0x11, Op::R_R_R__OR__R_R_IMM, 0),
        row("and", 0x12, Op::R_R_R__OR__R_R_IMM, 0),
        row("or", 0x13, Op::R_R_R__OR__R_R_IMM, 0),
        row("not", 0x14, Op::R_R__OR__R_I, 0),
        row("xor", 0x15, Op::R_R_R__OR__R_R_IMM, 0),
        row("shl", 0x16, Op::R_R_R__OR__R_R_IMM, 0),
        row("shr", 0x17, Op::R_R_R__OR__R_R_IMM, 0),
        row("sar", 0x18, Op::R_R_R__OR__R_R_IMM, 0),
        row("mul", 0x19, Op::R_R_R__OR__R_R_IMM, 0),
        row("div", 0x1A, Op::R_R_R__OR__R_R_IMM, 0),
        row("cmp", 0x20, Op::R_R__OR__R_I, 0),
        row("cmp.s", 0x21, Op::R_R__OR__R_I, 0),
        row("b", 0x30, Op::R__OR__I, BR_ALWAYS),
        row("beq", 0x30, Op::R__OR__I, BR_EQ),
        row("bne", 0x30, Op::R__OR__I, BR_NE),
        row("blt", 0x30, Op::R__OR__I, BR_LT),
        row("bgt", 0x30, Op::R__OR__I, BR_GT),
        row("ble", 0x30, Op::R__OR__I, BR_LE),
        row("bge", 0x30, Op::R__OR__I, BR_GE),
        row("jmp", 0x31, Op::R__OR__I, 0),
        row("ld", 0x40, Op::R_R_R__OR__R_R_IMM, LS_SIZE_D),
        row("ld.b", 0x40, Op::R_R_R__OR__R_R_IMM, LS_SIZE_B),
        row("ld.h", 0x40, Op::R_R_R__OR__R_R_IMM, LS_SIZE_H),
        row("ld.w", 0x40, Op::R_R_R__OR__R_R_IMM, LS_SIZE_W),
        row("ld.sb", 0x40, Op::R_R_R__OR__R_R_IMM, LS_SIZE_B | LS_SEXT),
        row("ld.sh", 0x40, Op::R_R_R__OR__R_R_IMM, LS_SIZE_H | LS_SEXT),
        row("ld.sw", 0x40, Op::R_R_R__OR__R_R_IMM, LS_SIZE_W | LS_SEXT),
        row("st", 0x41, Op::R_R_R__OR__R_R_IMM, LS_SIZE_D),
        row("st.b", 0x41, Op::R_R_R__OR__R_R_IMM, LS_SIZE_B),
        row("st.h", 0x41, Op::R_R_R__OR__R_R_IMM, LS_SIZE_H),
        row("st.w", 0x41, Op::R_R_R__OR__R_R_IMM, LS_SIZE_W),
    ]
}

fn fmt(mnemonic: &'static str, opcode: u8, inst_type: Op, flags: u8) -> (f: InstructionFormat)
    ensures
        f == row(mnemonic, opcode, inst_type, flags),
{
    InstructionFormat { mnemonic, opcode, inst_type, flags }
}

/// The instruction table, in order.
pub fn instructions() -> (v: Vec<InstructionFormat>)
    ensures
        v@ == instructions_spec(),
{
    let mut v: Vec<InstructionFormat> = Vec::new();
    // processor level
    v.push(fmt("nop", 0x00, Op::NULL, 0));
    v.push(fmt("trap", 0xFE, Op::NULL, 0));  // exception vector in the payload
    v.push(fmt("halt", 0xFF, Op::NULL, 0));
    // rd = rs, or rd = imm
    v.push(fmt("mov", 0x01, Op::R_R__OR__R_I, 0));
    // ALU: rd = a OP b with a = rs1 and b = rs2 or imm
    v.push(fmt("add", 0x10, Op::R_R_R__OR__R_R_IMM, 0));
    v.push(fmt("sub", 0x11, Op::R_R_R__OR__R_R_IMM, 0));
    v.push(fmt("and", 0x12, Op::R_R_R__OR__R_R_IMM, 0));
    v.push(fmt("or", 0x13, Op::R_R_R__OR__R_R_IMM, 0));
    v.push(fmt("not", 0x14, Op::R_R__OR__R_I, 0));
    v.push(fmt("xor", 0x15, Op::R_R_R__OR__R_R_IMM, 0));
    v.push(fmt("shl", 0x16, Op::R_R_R__OR__R_R_IMM, 0));
    v.push(fmt("shr", 0x17, Op::R_R_R__OR__R_R_IMM, 0));
    v.push(fmt("sar", 0x18, Op::R_R_R__OR__R_R_IMM, 0));
    v.push(fmt("mul", 0x19, Op::R_R_R__OR__R_R_IMM, 0));
    v.push(fmt("div", 0x1A, Op::R_R_R__OR__R_R_IMM, 0));
    // comparisons set the condition codes
    v.push(fmt("cmp", 0x20, Op::R_R__OR__R_I, 0));
    v.push(fmt("cmp.s", 0x21, Op::R_R__OR__R_I, 0));
    // branch: the predicate lives in the flag nibble; an immediate target
    // is a signed offset from the branch itself, at most 32 bits wide
    v.push(fmt("b", 0x30, Op::R__OR__I, BR_ALWAYS));
    v.push(fmt("beq", 0x30, Op::R__OR__I, BR_EQ));
    v.push(fmt("bne", 0x30, Op::R__OR__I, BR_NE));
    v.push(fmt("blt", 0x30, Op::R__OR__I, BR_LT));
    v.push(fmt("bgt", 0x30, Op::R__OR__I, BR_GT));
    v.push(fmt("ble", 0x30, Op::R__OR__I, BR_LE));
    v.push(fmt("bge", 0x30, Op::R__OR__I, BR_GE));
    // jump: always an absolute target
    v.push(fmt("jmp", 0x31, Op::R__OR__I, 0));
    // memory: size, sign extension and addressing mode in the flag nibble
    v.push(fmt("ld", 0x40, Op::R_R_R__OR__R_R_IMM, LS_SIZE_D));
    v.push(fmt("ld.b", 0x40, Op::R_R_R__OR__R_R_IMM, LS_SIZE_B));
    v.push(fmt("ld.h", 0x40, Op::R_R_R__OR__R_R_IMM, LS_SIZE_H));
    v.push(fmt("ld.w", 0x40, Op::R_R_R__OR__R_R_IMM, LS_SIZE_W));
    v.push(fmt("ld.sb", 0x40, Op::R_R_R__OR__R_R_IMM, LS_SIZE_B | LS_SEXT));
    v.push(fmt("ld.sh", 0x40, Op::R_R_R__OR__R_R_IMM, LS_SIZE_H | LS_SEXT));
    v.push(fmt("ld.sw", 0x40, Op::R_R_R__OR__R_R_IMM, LS_SIZE_W | LS_SEXT));
    v.push(fmt("st", 0x41, Op::R_R_R__OR__R_R_IMM, LS_SIZE_D));
    v.push(fmt("st.b", 0x41, Op::R_R_R__OR__R_R_IMM, LS_SIZE_B));
    v.push(fmt("st.h", 0x41, Op::R_R_R__OR__R_R_IMM, LS_SIZE_H));
    v.push(fmt("st.w", 0x41, Op::R_R_R__OR__R_R_IMM, LS_SIZE_W));
    assert(v@ =~= instructions_spec());
    v
}

/// The first table row whose mnemonic is `mn`, looking from row `i` on.
pub open spec fn find_from(rows: Seq<InstructionFormat>, mn: Seq<char>, i: int) -> Option<
    InstructionFormat,
>
    decreases rows.len() - i,
{
    if i < 0 || i >= rows.len() {
        None
    } else if rows[i].mnemonic@ == mn {
        Some(rows[i])
    } else {
        find_from(rows, mn, i + 1)
    }
}

/// The table row for a mnemonic (mnemonics are case-sensitive).
pub open spec fn find_spec(mn: Seq<char>) -> Option<InstructionFormat> {
    find_from(instructions_spec(), mn, 0)
}

pub fn find(mn: &[char]) -> (r: Option<InstructionFormat>)
    ensures
        r == find_spec(mn@),
{
    let rows = instructions();
    let mut i: usize = 0;
    while i < rows.len()
        invariant
            rows@ == instructions_spec(),
            i <= rows@.len(),
            find_spec(mn@) == find_from(rows@, mn@, i as int),
        decreases rows.len() - i,
    {
        let m = text::str_chars(rows[i].mnemonic);
        if text::chars_eq(m.as_slice(), mn) {
            return Some(rows[i]);
        }
        i += 1;
    }
    None
}

/// One operand, as parsed. A label reference carries the immediate width it
/// is given during layout.
pub enum Slot {
    Reg(u8),
    Num(i64),
    Sym { name: Vec<char>, width: usize },
}

/// An operand in spec form.
pub enum SlotV {
    Reg(u8),
    Num(i64),
    Sym { name: Seq<char>, width: nat },
}

impl View for Slot {
    type V = SlotV;

    open spec fn view(&self) -> SlotV {
        match self {
            Slot::Reg(r) => SlotV::Reg(*r),
            Slot::Num(v) => SlotV::Num(*v),
            Slot::Sym { name, width } => SlotV::Sym { name: name@, width: *width as nat },
        }
    }
}

/// A plain (non-bracket) operand: a register, a numeric literal, or a label
/// (whose width starts at one byte).
pub open spec fn operand_spec(tok: Seq<char>) -> Option<SlotV> {
    let t = trim(tok);
    if reg_spec(t) is Some {
        Some(SlotV::Reg(reg_spec(t).unwrap()))
    } else if imm_spec(t) is Some {
        Some(SlotV::Num(imm_spec(t).unwrap()))
    } else if is_ident_spec(t) {
        Some(SlotV::Sym { name: t, width: 1 })
    } else {
        None
    }
}

/// The message for an operand that is no register, number or label.
pub open spec fn operand_msg(tok: Seq<char>) -> Seq<char> {
    "bad operand '"@ + tok + "'"@
}

/// The message for a token that names no register.
pub open spec fn bad_reg_msg(tok: Seq<char>) -> Seq<char> {
    "bad register '"@ + tok + "'"@
}

fn operand(tok: &[char]) -> (r: Result<Slot, String>)
    ensures
        r is Ok <==> operand_spec(tok@) is Some,
        r matches Ok(s) ==> s@ == operand_spec(tok@).unwrap(),
        r matches Err(e) ==> e@ == operand_msg(tok@),
{
    let t = text::trim_slice(tok);
    proof {
        text::lemma_trim_idem(tok@);
    }
    if let Some(r) = lex::reg(t) {
        Ok(Slot::Reg(r))
    } else if let Some(v) = lex::imm(t) {
        Ok(Slot::Num(v))
    } else if lex::is_ident(t) {
        let name = text::copy_range(t, 0, t.len());
        assert(t@.subrange(0, t@.len() as int) == t@);
        Ok(Slot::Sym { name, width: 1 })
    } else {
        let mut m = Msg::new("bad operand '");
        m.chars(tok);
        m.lit("'");
        Err(m.string())
    }
}

/// Where a `+` or `-` (not in first position) splits an address field, or
/// `s.len()`.
pub open spec fn sign_from(s: Seq<char>, i: int) -> int
    decreases s.len() - i,
{
    if i < 1 || i >= s.len() {
        s.len() as int
    } else if s[i] == '+' || s[i] == '-' {
        i
    } else {
        sign_from(s, i + 1)
    }
}

/// The inside of a `[...]` address field, trimmed.
pub open spec fn bracket_inner(field: Seq<char>) -> Option<Seq<char>> {
    let t = trim(field);
    if t.len() >= 2 && t[0] == '[' && t.last() == ']' {
        Some(trim(t.subrange(1, t.len() - 1)))
    } else {
        None
    }
}

/// A `[base]`, `[base + disp]`, `[base - disp]` or `[base + index]` address
/// field: the base register and the offset operand.
pub open spec fn mem_spec(field: Seq<char>) -> Option<(u8, SlotV)> {
    match bracket_inner(field) {
        None => None,
        Some(inner) => {
            let k = sign_from(inner, 1);
            if k >= inner.len() {
                match reg_spec(inner) {
                    Some(b) => Some((b, SlotV::Num(0))),
                    None => None,
                }
            } else {
                let minus = inner[k] == '-';
                match reg_spec(trim(inner.take(k))) {
                    None => None,
                    Some(base) => {
                        let rhs = trim(inner.skip(k + 1));
                        if reg_spec(rhs) is Some {
                            if minus {
                                None
                            } else {
                                Some((base, SlotV::Reg(reg_spec(rhs).unwrap())))
                            }
                        } else if imm_spec(rhs) is Some {
                            let v = imm_spec(rhs).unwrap() as int;
                            Some(
                                (
                                    base,
                                    SlotV::Num(
                                        if minus {
                                            lex::neg64(v) as i64
                                        } else {
                                            v as i64
                                        },
                                    ),
                                ),
                            )
                        } else {
                            None
                        }
                    },
                }
            }
        },
    }
}

/// The message for an address field that does not read, naming the first
/// part of it that does not.
pub open spec fn mem_msg(field: Seq<char>) -> Seq<char> {
    let t = trim(field);
    if !(t.len() >= 2 && t[0] == '[' && t.last() == ']') {
        "expected [address], got '"@ + field + "'"@
    } else {
        let inner = trim(t.subrange(1, t.len() - 1));
        let k = sign_from(inner, 1);
        if k >= inner.len() {
            bad_reg_msg(inner)
        } else if reg_spec(trim(inner.take(k))) is None {
            bad_reg_msg(trim(inner.take(k)))
        } else {
            let rhs = trim(inner.skip(k + 1));
            if reg_spec(rhs) is Some {
                "cannot subtract an index register in '"@ + field + "'"@
            } else {
                "bad address offset '"@ + rhs + "'"@
            }
        }
    }
}

fn mem(field: &[char]) -> (r: Result<(u8, Slot), String>)
    ensures
        r is Ok <==> mem_spec(field@) is Some,
        r matches Ok((b, s)) ==> b == mem_spec(field@).unwrap().0 && s@ == mem_spec(
            field@,
        ).unwrap().1,
        r matches Err(e) ==> e@ == mem_msg(field@),
{
    let t = text::trim_slice(field);
    if !(t.len() >= 2 && t[0] == '[' && t[t.len() - 1] == ']') {
        let mut m = Msg::new("expected [address], got '");
        m.chars(field);
        m.lit("'");
        return Err(m.string());
    }
    let inner = text::trim_slice(vstd::slice::slice_subrange(t, 1, t.len() - 1));
    proof {
        assert(t@.last() == t@[t@.len() - 1]);
    }
    let mut k: usize = 1;
    while k < inner.len() && !(inner[k] == '+' || inner[k] == '-')
        invariant
            1 <= k,
            k <= inner@.len() || inner@.len() == 0,
            sign_from(inner@, 1) == sign_from(inner@, k as int),
        decreases inner.len() - k,
    {
        k += 1;
    }
    if k >= inner.len() {
        return match lex::reg(inner) {
            Some(b) => Ok((b, Slot::Num(0))),
            None => {
                let mut m = Msg::new("bad register '");
                m.chars(inner);
                m.lit("'");
                Err(m.string())
            },
        };
    }
    let minus = inner[k] == '-';
    let base_tok = text::trim_slice(vstd::slice::slice_subrange(inner, 0, k));
    assert(inner@.subrange(0, k as int) == inner@.take(k as int));
    let base = match lex::reg(base_tok) {
        Some(b) => b,
        None => {
            let mut m = Msg::new("bad register '");
            m.chars(base_tok);
            m.lit("'");
            return Err(m.string());
        },
    };
    let rhs = text::trim_slice(vstd::slice::slice_subrange(inner, k + 1, inner.len()));
    assert(inner@.subrange(k + 1, inner@.len() as int) == inner@.skip(k + 1));
    if let Some(rx) = lex::reg(rhs) {
        if minus {
            let mut m = Msg::new("cannot subtract an index register in '");
            m.chars(field);
            m.lit("'");
            return Err(m.string());
        }
        Ok((base, Slot::Reg(rx)))
    } else if let Some(v) = lex::imm(rhs) {
        Ok(
            (
                base,
                Slot::Num(
                    if minus {
                        if v == i64::MIN {
                            v
                        } else {
                            -v
                        }
                    } else {
                        v
                    },
                ),
            ),
        )
    } else {
        let mut m = Msg::new("bad address offset '");
        m.chars(rhs);
        m.lit("'");
        Err(m.string())
    }
}

/// The operand slots a format expects from its operand strings. Loads and
/// stores use bracket syntax and are recognised by opcode; a store keeps the
/// stored value in the first register slot.
pub open spec fn build_slots_spec(f: InstructionFormat, args: Seq<Seq<char>>) -> Option<Seq<SlotV>> {
    if f.opcode == 0x40 || f.opcode == 0x41 {
        if args.len() != 2 {
            None
        } else {
            let (rtok, mtok) = if f.opcode == 0x40 {
                (args[0], args[1])
            } else {
                (args[1], args[0])
            };
            match (reg_spec(rtok), mem_spec(mtok)) {
                (Some(r), Some((base, off))) => Some(seq![SlotV::Reg(r), SlotV::Reg(base), off]),
                _ => None,
            }
        }
    } else {
        match f.inst_type {
            Op::NULL => if f.mnemonic@ == "trap"@ && args.len() == 1 {
                match operand_spec(args[0]) {
                    Some(s) => Some(seq![s]),
                    None => None,
                }
            } else if args.len() == 0 {
                Some(seq![])
            } else {
                None
            },
            Op::R__OR__I => if args.len() != 1 {
                None
            } else {
                match operand_spec(args[0]) {
                    Some(s) => Some(seq![s]),
                    None => None,
                }
            },
            Op::R_R__OR__R_I => if args.len() != 2 {
                None
            } else {
                match (reg_spec(args[0]), operand_spec(args[1])) {
                    (Some(r), Some(s)) => Some(seq![SlotV::Reg(r), s]),
                    _ => None,
                }
            },
            Op::R_R_R__OR__R_R_IMM => if args.len() != 3 {
                None
            } else {
                match (reg_spec(args[0]), reg_spec(args[1]), operand_spec(args[2])) {
                    (Some(a), Some(b), Some(s)) => Some(seq![SlotV::Reg(a), SlotV::Reg(b), s]),
                    _ => None,
                }
            },
        }
    }
}

/// The message for an operand count the format does not take.
pub open spec fn need_msg(f: InstructionFormat, k: nat, got: nat) -> Seq<char> {
    f.mnemonic@ + " takes "@ + text::digits(k, 10) + " operands, got "@ + text::digits(got, 10)
}

/// The message for operand strings a format does not take: the first of
/// them, in the order they are read, that does not read.
pub open spec fn build_slots_msg(f: InstructionFormat, args: Seq<Seq<char>>) -> Seq<char> {
    if f.opcode == 0x40 || f.opcode == 0x41 {
        if args.len() != 2 {
            need_msg(f, 2, args.len())
        } else {
            let (rtok, mtok) = if f.opcode == 0x40 {
                (args[0], args[1])
            } else {
                (args[1], args[0])
            };
            if mem_spec(mtok) is None {
                mem_msg(mtok)
            } else {
                bad_reg_msg(rtok)
            }
        }
    } else {
        match f.inst_type {
            Op::NULL => if f.mnemonic@ == "trap"@ && args.len() == 1 {
                operand_msg(args[0])
            } else if f.mnemonic@ == "trap"@ && args.len() > 1 {
                "trap takes 0 or 1 operands"@
            } else {
                need_msg(f, 0, args.len())
            },
            Op::R__OR__I => if args.len() != 1 {
                need_msg(f, 1, args.len())
            } else {
                operand_msg(args[0])
            },
            Op::R_R__OR__R_I => if args.len() != 2 {
                need_msg(f, 2, args.len())
            } else if reg_spec(args[0]) is None {
                bad_reg_msg(args[0])
            } else {
                operand_msg(args[1])
            },
            Op::R_R_R__OR__R_R_IMM => if args.len() != 3 {
                need_msg(f, 3, args.len())
            } else if reg_spec(args[0]) is None {
                bad_reg_msg(args[0])
            } else if reg_spec(args[1]) is None {
                bad_reg_msg(args[1])
            } else {
                operand_msg(args[2])
            },
        }
    }
}

fn need(f: &InstructionFormat, k: usize, got: usize) -> (r: Result<(), String>)
    ensures
        r is Ok <==> k == got,
        r matches Err(e) ==> e@ == need_msg(*f, k as nat, got as nat),
{
    if k == got {
        Ok(())
    } else {
        let mut m = Msg::new(f.mnemonic);
        m.lit(" takes ");
        m.dec(k as u64);
        m.lit(" operands, got ");
        m.dec(got as u64);
        Err(m.string())
    }
}

fn reg_or_err(tok: &[char]) -> (r: Result<u8, String>)
    ensures
        match reg_spec(tok@) {
            Some(x) => r == Ok::<u8, String>(x),
            None => r is Err,
        },
        r matches Err(e) ==> e@ == bad_reg_msg(tok@),
{
    match lex::reg(tok) {
        Some(x) => Ok(x),
        None => {
            let mut m = Msg::new("bad register '");
            m.chars(tok);
            m.lit("'");
            Err(m.string())
        },
    }
}

/// The views of a list of character vectors.
pub open spec fn arg_views(args: Seq<Vec<char>>) -> Seq<Seq<char>> {
    args.map_values(|a: Vec<char>| a@)
}

/// The views of a list of slots.
pub open spec fn slot_views(v: Seq<Slot>) -> Seq<SlotV> {
    v.map_values(|s: Slot| s@)
}

#[verifier::spinoff_prover]
#[verifier::rlimit(40)]
fn build_mem_slots(f: &InstructionFormat, args: &Vec<Vec<char>>) -> (r: Result<Vec<Slot>, String>)
    requires
        f.opcode == 0x40 || f.opcode == 0x41,
    ensures
        r is Ok <==> build_slots_spec(*f, arg_views(args@)) is Some,
        r matches Ok(v) ==> slot_views(v@) == build_slots_spec(*f, arg_views(args@)).unwrap(),
        r matches Err(e) ==> e@ == build_slots_msg(*f, arg_views(args@)),
{
    let ghost a = arg_views(args@);
    need(f, 2, args.len())?;
    assert(a[0] == args@[0]@ && a[1] == args@[1]@);
    let (rtok, mtok) = if f.opcode == 0x40 {
        (&args[0], &args[1])
    } else {
        (&args[1], &args[0])
    };
    let (base, off) = mem(mtok.as_slice())?;
    let r = reg_or_err(rtok.as_slice())?;
    let mut v: Vec<Slot> = Vec::new();
    v.push(Slot::Reg(r));
    v.push(Slot::Reg(base));
    v.push(off);
    assert(slot_views(v@) =~= build_slots_spec(*f, a).unwrap());
    Ok(v)
}

fn one_slot(tok: &Vec<char>) -> (r: Result<Vec<Slot>, String>)
    ensures
        r is Ok <==> operand_spec(tok@) is Some,
        r matches Ok(v) ==> slot_views(v@) == seq![operand_spec(tok@).unwrap()],
        r matches Err(e) ==> e@ == operand_msg(tok@),
{
    let s = operand(tok.as_slice())?;
    let mut v: Vec<Slot> = Vec::new();
    v.push(s);
    assert(slot_views(v@) =~= seq![operand_spec(tok@).unwrap()]);
    Ok(v)
}

#[verifier::spinoff_prover]
#[verifier::rlimit(40)]
fn slots_rr(f: &InstructionFormat, args: &Vec<Vec<char>>) -> (r: Result<Vec<Slot>, String>)
    requires
        !(f.opcode == 0x40 || f.opcode == 0x41),
        f.inst_type == Op::R_R__OR__R_I,
    ensures
        r is Ok <==> build_slots_spec(*f, arg_views(args@)) is Some,
        r matches Ok(v) ==> slot_views(v@) == build_slots_spec(*f, arg_views(args@)).unwrap(),
        r matches Err(e) ==> e@ == build_slots_msg(*f, arg_views(args@)),
{
    let ghost a = arg_views(args@);
    need(f, 2, args.len())?;
    assert(a[0] == args@[0]@ && a[1] == args@[1]@);
    let r = reg_or_err(args[0].as_slice())?;
    let s = operand(args[1].as_slice())?;
    let mut v: Vec<Slot> = Vec::new();
    v.push(Slot::Reg(r));
    v.push(s);
    assert(slot_views(v@) =~= build_slots_spec(*f, a).unwrap());
    Ok(v)
}

#[verifier::spinoff_prover]
#[verifier::rlimit(40)]
fn slots_rrr(f: &InstructionFormat, args: &Vec<Vec<char>>) -> (r: Result<Vec<Slot>, String>)
    requires
        !(f.opcode == 0x40 || f.opcode == 0x41),
        f.inst_type == Op::R_R_R__OR__R_R_IMM,
    ensures
        r is Ok <==> build_slots_spec(*f, arg_views(args@)) is Some,
        r matches Ok(v) ==> slot_views(v@) == build_slots_spec(*f, arg_views(args@)).unwrap(),
        r matches Err(e) ==> e@ == build_slots_msg(*f, arg_views(args@)),
{
    let ghost a = arg_views(args@);
    need(f, 3, args.len())?;
    assert(a[0] == args@[0]@ && a[1] == args@[1]@ && a[2] == args@[2]@);
    let r1 = reg_or_err(args[0].as_slice())?;
    let r2 = reg_or_err(args[1].as_slice())?;
    let s = operand(args[2].as_slice())?;
    let mut v: Vec<Slot> = Vec::new();
    v.push(Slot::Reg(r1));
    v.push(Slot::Reg(r2));
    v.push(s);
    assert(slot_views(v@) =~= build_slots_spec(*f, a).unwrap());
    Ok(v)
}

#[verifier::spinoff_prover]
#[verifier::rlimit(40)]
fn slots_null(f: &InstructionFormat, args: &Vec<Vec<char>>) -> (r: Result<Vec<Slot>, String>)
    requires
        !(f.opcode == 0x40 || f.opcode == 0x41),
        f.inst_type == Op::NULL,
    ensures
        r is Ok <==> build_slots_spec(*f, arg_views(args@)) is Some,
        r matches Ok(v) ==> slot_views(v@) == build_slots_spec(*f, arg_views(args@)).unwrap(),
        r matches Err(e) ==> e@ == build_slots_msg(*f, arg_views(args@)),
{
    let ghost a = arg_views(args@);
    let trap = text::str_chars("trap");
    let mn = text::str_chars(f.mnemonic);
    let is_trap = text::chars_eq(mn.as_slice(), trap.as_slice());
    if is_trap && args.len() == 1 {
        assert(a[0] == args@[0]@);
        one_slot(&args[0])
    } else if is_trap && args.len() > 1 {
        Err(text::string_of(text::str_chars("trap takes 0 or 1 operands").as_slice()))
    } else {
        need(f, 0, args.len())?;
        let v: Vec<Slot> = Vec::new();
        assert(slot_views(v@) =~= build_slots_spec(*f, a).unwrap());
        Ok(v)
    }
}

/// Map a format and its operand strings onto the slot list it expects.
pub fn build_slots(f: &InstructionFormat, args: &Vec<Vec<char>>) -> (r: Result<Vec<Slot>, String>)
    ensures
        r is Ok <==> build_slots_spec(*f, arg_views(args@)) is Some,
        r matches Ok(v) ==> slot_views(v@) == build_slots_spec(*f, arg_views(args@)).unwrap(),
        r matches Err(e) ==> e@ == build_slots_msg(*f, arg_views(args@)),
{
    if f.opcode == 0x40 || f.opcode == 0x41 {
        return build_mem_slots(f, args);
    }
    match f.inst_type {
        Op::NULL => slots_null(f, args),
        Op::R__OR__I => {
            let ghost a = arg_views(args@);
            need(f, 1, args.len())?;
            assert(a[0] == args@[0]@);
            one_slot(&args[0])
        },
        Op::R_R__OR__R_I => slots_rr(f, args),
        Op::R_R_R__OR__R_R_IMM => slots_rrr(f, args),
    }
}

} // verus!
