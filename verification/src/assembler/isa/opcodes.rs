//! The instruction table: mnemonic, opcode, operand form, the FLAGS nibble
//! to emit (so `ldb` / `ldbu` can share an opcode), which payload register
//! slot the result is written to, and a summary. Immediate width is not
//! declared; it is inferred from the value.
use crate::assembler::isa::format::{Form, shape_spec};
use crate::text;
use vstd::prelude::*;

verus! {

#[derive(Debug, Clone, Copy, PartialEq, Eq)]
pub struct InstrDef {
    pub mnemonic: &'static str,
    pub opcode: u8,
    pub form: Form,
    pub flags: u8,
    pub writes: Option<u8>,
    pub summary: &'static str,
}

/// The shape every row of the table has: the result register, when there
/// is one, is the first payload register, and a three-register form always
/// writes one.
pub open spec fn row_ok(d: InstrDef) -> bool {
    &&& (d.writes is None || d.writes == Some(0u8))
    &&& (d.writes is Some ==> shape_spec(d.form).0 >= 1)
    &&& (d.form == Form::RRR ==> d.writes is Some)
}

/// A table row.
pub open spec fn row(
    mnemonic: &'static str,
    opcode: u8,
    form: Form,
    flags: u8,
    writes: Option<u8>,
    summary: &'static str,
) -> InstrDef {
    InstrDef { mnemonic, opcode, form, flags, writes, summary }
}

/// The instruction table.
pub open spec fn instructions_spec() -> Seq<InstrDef> {
    seq![
        row("nop", 0x00, Form::Nullary, 0, None, "do nothing"),
        row("mov", 0x02, Form::RR, 0, Some(0), "rd = rs"),
        row("movi", 0x03, Form::RI, 0, Some(0), "rd = imm"),
        row("add", 0x10, Form::RRR, 0, Some(0), "rd = rs1 + rs2"),
        row("sub", 0x11, Form::RRR, 0, Some(0), "rd = rs1 - rs2"),
        row("and", 0x12, Form::RRR, 0, Some(0), "rd = rs1 & rs2"),
        row("or", 0x13, Form::RRR, 0, Some(0), "rd = rs1 | rs2"),
        row("xor", 0x14, Form::RRR, 0, Some(0), "rd = rs1 ^ rs2"),
        row("nor", 0x15, Form::RRR, 0, Some(0), "rd = ~(rs1 | rs2)"),
        row("shl", 0x16, Form::RRR, 0, Some(0), "rd = rs1 << rs2"),
        row("shr", 0x17, Form::RRR, 0, Some(0), "rd = rs1 >> rs2 (logical)"),
        row("sar", 0x18, Form::RRR, 0, Some(0), "rd = rs1 >> rs2 (arithmetic)"),
        row("addi", 0x20, Form::RRI, 0, Some(0), "rd = rs + imm"),
        row("andi", 0x21, Form::RRI, 0, Some(0), "rd = rs & imm"),
        row("ori", 0x22, Form::RRI, 0, Some(0), "rd = rs | imm"),
        row("xori", 0x23, Form::RRI, 0, Some(0), "rd = rs ^ imm"),
        row("shli", 0x24, Form::RRI, 0, Some(0), "rd = rs << imm"),
        row("shri", 0x25, Form::RRI, 0, Some(0), "rd = rs >> imm (logical)"),
        row("sari", 0x26, Form::RRI, 0, Some(0), "rd = rs >> imm (arithmetic)"),
        row("slt", 0x30, Form::RRR, 0, Some(0), "rd = rs1 < rs2  (signed)"),
        row("sltu", 0x31, Form::RRR, 0, Some(0), "rd = rs1 < rs2  (unsigned)"),
        row("seq", 0x32, Form::RRR, 0, Some(0), "rd = rs1 == rs2"),
        row("sne", 0x33, Form::RRR, 0, Some(0), "rd = rs1 != rs2"),
        row("sle", 0x34, Form::RRR, 0, Some(0), "rd = rs1 <= rs2 (signed)"),
        row("sleu", 0x35, Form::RRR, 0, Some(0), "rd = rs1 <= rs2 (unsigned)"),
        row("sge", 0x36, Form::RRR, 0, Some(0), "rd = rs1 >= rs2 (signed)"),
        row("sgeu", 0x37, Form::RRR, 0, Some(0), "rd = rs1 >= rs2 (unsigned)"),
        row("beq", 0x40, Form::RRI, 0, None, "branch if rs1 == rs2"),
        row("bne", 0x41, Form::RRI, 0, None, "branch if rs1 != rs2"),
        row("blt", 0x42, Form::RRI, 0, None, "branch if rs1 < rs2  (signed)"),
        row("bltu", 0x43, Form::RRI, 0, None, "branch if rs1 < rs2  (unsigned)"),
        row("bge", 0x44, Form::RRI, 0, None, "branch if rs1 >= rs2 (signed)"),
        row("bgeu", 0x45, Form::RRI, 0, None, "branch if rs1 >= rs2 (unsigned)"),
        row("jmp", 0x48, Form::I, 0, None, "pc = target"),
        row("jr", 0x49, Form::R, 0, None, "pc = rd"),
        row("call", 0x4A, Form::I, 0, None, "push return addr; pc = target"),
        row("callr", 0x4B, Form::R, 0, None, "push return addr; pc = rd"),
        row("ret", 0x4C, Form::Nullary, 0, None, "pop return addr into pc"),
        row("ld", 0x50, Form::RMem, 0, Some(0), "rd = mem64[rb + disp]"),
        row("ldw", 0x51, Form::RMem, 1, Some(0), "rd = sext(mem32[rb + disp])"),
        row("ldwu", 0x51, Form::RMem, 0, Some(0), "rd = zext(mem32[rb + disp])"),
        row("ldh", 0x52, Form::RMem, 1, Some(0), "rd = sext(mem16[rb + disp])"),
        row("ldhu", 0x52, Form::RMem, 0, Some(0), "rd = zext(mem16[rb + disp])"),
        row("ldb", 0x53, Form::RMem, 1, Some(0), "rd = sext(mem8[rb + disp])"),
        row("ldbu", 0x53, Form::RMem, 0, Some(0), "rd = zext(mem8[rb + disp])"),
        row("st", 0x54, Form::RMem, 0, None, "mem64[rb + disp] = rs"),
        row("stw", 0x55, Form::RMem, 0, None, "mem32[rb + disp] = rs"),
        row("sth", 0x56, Form::RMem, 0, None, "mem16[rb + disp] = rs"),
        row("stb", 0x57, Form::RMem, 0, None, "mem8[rb + disp] = rs"),
        row("halt", 0xFF, Form::Nullary, 0, None, "stop the machine"),
    ]
}

fn def(
    mnemonic: &'static str,
    opcode: u8,
    form: Form,
    flags: u8,
    writes: Option<u8>,
    summary: &'static str,
) -> (d: InstrDef)
    ensures
        d == row(mnemonic, opcode, form, flags, writes, summary),
{
    InstrDef { mnemonic, opcode, form, flags, writes, summary }
}

/// The instruction table, in order.
pub fn instructions() -> (v: Vec<InstrDef>)
    ensures
        v@ == instructions_spec(),
        forall|j: int| 0 <= j < v@.len() ==> row_ok(#[trigger] v@[j]),
{
    let mut v: Vec<InstrDef> = Vec::new();
    v.push(def("nop", 0x00, Form::Nullary, 0, None, "do nothing"));
    // moves / constants
    v.push(def("mov", 0x02, Form::RR, 0, Some(0), "rd = rs"));
    v.push(def("movi", 0x03, Form::RI, 0, Some(0), "rd = imm"));
    // integer ALU, register form
    v.push(def("add", 0x10, Form::RRR, 0, Some(0), "rd = rs1 + rs2"));
    v.push(def("sub", 0x11, Form::RRR, 0, Some(0), "rd = rs1 - rs2"));
    v.push(def("and", 0x12, Form::RRR, 0, Some(0), "rd = rs1 & rs2"));
    v.push(def("or", 0x13, Form::RRR, 0, Some(0), "rd = rs1 | rs2"));
    v.push(def("xor", 0x14, Form::RRR, 0, Some(0), "rd = rs1 ^ rs2"));
    v.push(def("nor", 0x15, Form::RRR, 0, Some(0), "rd = ~(rs1 | rs2)"));
    v.push(def("shl", 0x16, Form::RRR, 0, Some(0), "rd = rs1 << rs2"));
    v.push(def("shr", 0x17, Form::RRR, 0, Some(0), "rd = rs1 >> rs2 (logical)"));
    v.push(def("sar", 0x18, Form::RRR, 0, Some(0), "rd = rs1 >> rs2 (arithmetic)"));
    // integer ALU, immediate form
    v.push(def("addi", 0x20, Form::RRI, 0, Some(0), "rd = rs + imm"));
    v.push(def("andi", 0x21, Form::RRI, 0, Some(0), "rd = rs & imm"));
    v.push(def("ori", 0x22, Form::RRI, 0, Some(0), "rd = rs | imm"));
    v.push(def("xori", 0x23, Form::RRI, 0, Some(0), "rd = rs ^ imm"));
    v.push(def("shli", 0x24, Form::RRI, 0, Some(0), "rd = rs << imm"));
    v.push(def("shri", 0x25, Form::RRI, 0, Some(0), "rd = rs >> imm (logical)"));
    v.push(def("sari", 0x26, Form::RRI, 0, Some(0), "rd = rs >> imm (arithmetic)"));
    // set-if-predicate: rd = (rs1 OP rs2) ? 1 : 0
    v.push(def("slt", 0x30, Form::RRR, 0, Some(0), "rd = rs1 < rs2  (signed)"));
    v.push(def("sltu", 0x31, Form::RRR, 0, Some(0), "rd = rs1 < rs2  (unsigned)"));
    v.push(def("seq", 0x32, Form::RRR, 0, Some(0), "rd = rs1 == rs2"));
    v.push(def("sne", 0x33, Form::RRR, 0, Some(0), "rd = rs1 != rs2"));
    v.push(def("sle", 0x34, Form::RRR, 0, Some(0), "rd = rs1 <= rs2 (signed)"));
    v.push(def("sleu", 0x35, Form::RRR, 0, Some(0), "rd = rs1 <= rs2 (unsigned)"));
    v.push(def("sge", 0x36, Form::RRR, 0, Some(0), "rd = rs1 >= rs2 (signed)"));
    v.push(def("sgeu", 0x37, Form::RRR, 0, Some(0), "rd = rs1 >= rs2 (unsigned)"));
    // compare-and-branch: if (rs1 OP rs2) pc = target
    v.push(def("beq", 0x40, Form::RRI, 0, None, "branch if rs1 == rs2"));
    v.push(def("bne", 0x41, Form::RRI, 0, None, "branch if rs1 != rs2"));
    v.push(def("blt", 0x42, Form::RRI, 0, None, "branch if rs1 < rs2  (signed)"));
    v.push(def("bltu", 0x43, Form::RRI, 0, None, "branch if rs1 < rs2  (unsigned)"));
    v.push(def("bge", 0x44, Form::RRI, 0, None, "branch if rs1 >= rs2 (signed)"));
    v.push(def("bgeu", 0x45, Form::RRI, 0, None, "branch if rs1 >= rs2 (unsigned)"));
    // unconditional control flow
    v.push(def("jmp", 0x48, Form::I, 0, None, "pc = target"));
    v.push(def("jr", 0x49, Form::R, 0, None, "pc = rd"));
    v.push(def("call", 0x4A, Form::I, 0, None, "push return addr; pc = target"));
    v.push(def("callr", 0x4B, Form::R, 0, None, "push return addr; pc = rd"));
    v.push(def("ret", 0x4C, Form::Nullary, 0, None, "pop return addr into pc"));
    // load / store: address = rb + signed disp
    v.push(def("ld", 0x50, Form::RMem, 0, Some(0), "rd = mem64[rb + disp]"));
    v.push(def("ldw", 0x51, Form::RMem, 1, Some(0), "rd = sext(mem32[rb + disp])"));
    v.push(def("ldwu", 0x51, Form::RMem, 0, Some(0), "rd = zext(mem32[rb + disp])"));
    v.push(def("ldh", 0x52, Form::RMem, 1, Some(0), "rd = sext(mem16[rb + disp])"));
    v.push(def("ldhu", 0x52, Form::RMem, 0, Some(0), "rd = zext(mem16[rb + disp])"));
    v.push(def("ldb", 0x53, Form::RMem, 1, Some(0), "rd = sext(mem8[rb + disp])"));
    v.push(def("ldbu", 0x53, Form::RMem, 0, Some(0), "rd = zext(mem8[rb + disp])"));
    v.push(def("st", 0x54, Form::RMem, 0, None, "mem64[rb + disp] = rs"));
    v.push(def("stw", 0x55, Form::RMem, 0, None, "mem32[rb + disp] = rs"));
    v.push(def("sth", 0x56, Form::RMem, 0, None, "mem16[rb + disp] = rs"));
    v.push(def("stb", 0x57, Form::RMem, 0, None, "mem8[rb + disp] = rs"));
    // system
    v.push(def("halt", 0xFF, Form::Nullary, 0, None, "stop the machine"));
    assert(v@ =~= instructions_spec());
    v
}

/// The first row at or after `i` whose mnemonic is `m`.
pub open spec fn find_mnemonic(rows: Seq<InstrDef>, m: Seq<char>, i: int) -> Option<InstrDef>
    decreases rows.len() - i,
{
    if i < 0 || i >= rows.len() {
        None
    } else if rows[i].mnemonic@ == m {
        Some(rows[i])
    } else {
        find_mnemonic(rows, m, i + 1)
    }
}

/// The first row at or after `i` with this opcode and flags.
pub open spec fn find_opcode(rows: Seq<InstrDef>, opcode: u8, flags: u8, i: int) -> Option<InstrDef>
    decreases rows.len() - i,
{
    if i < 0 || i >= rows.len() {
        None
    } else if rows[i].opcode == opcode && rows[i].flags == flags {
        Some(rows[i])
    } else {
        find_opcode(rows, opcode, flags, i + 1)
    }
}

/// The row for a mnemonic, compared case-insensitively.
pub open spec fn by_mnemonic_spec(m: Seq<char>) -> Option<InstrDef> {
    find_mnemonic(instructions_spec(), text::spec_lower(m), 0)
}

/// Look up an instruction by the mnemonic the user typed (case-insensitive).
pub fn by_mnemonic(m: &str) -> (r: Option<InstrDef>)
    ensures
        r == by_mnemonic_spec(m@),
{
    let mc = text::str_chars(m);
    let lm = text::lower(mc.as_slice());
    let rows = instructions();
    let mut i: usize = 0;
    while i < rows.len()
        invariant
            rows@ == instructions_spec(),
            lm@ == text::spec_lower(m@),
            i <= rows@.len(),
            by_mnemonic_spec(m@) == find_mnemonic(rows@, lm@, i as int),
        decreases rows.len() - i,
    {
        let cand = text::str_chars(rows[i].mnemonic);
        if text::chars_eq(cand.as_slice(), lm.as_slice()) {
            return Some(rows[i]);
        }
        i += 1;
    }
    None
}

/// Look up by encoded (opcode, flags).
pub fn by_opcode(opcode: u8, flags: u8) -> (r: Option<InstrDef>)
    ensures
        r == find_opcode(instructions_spec(), opcode, flags, 0),
        r matches Some(d) ==> row_ok(d) && d.opcode == opcode && d.flags == flags,
{
    let rows = instructions();
    let mut i: usize = 0;
    while i < rows.len()
        invariant
            rows@ == instructions_spec(),
            i <= rows@.len(),
            find_opcode(rows@, opcode, flags, 0) == find_opcode(rows@, opcode, flags, i as int),
        decreases rows.len() - i,
    {
        if rows[i].opcode == opcode && rows[i].flags == flags {
            return Some(rows[i]);
        }
        i += 1;
    }
    None
}

} // verus!
