//! The parse tree: one `Item` per source statement, a label alone on its line
//! or an instruction.
use vstd::prelude::*;

verus! {

pub struct Program {
    pub items: Vec<Item>,
}

pub struct Item {
    pub line: usize,
    pub kind: ItemKind,
}

pub enum ItemKind {
    Label(String),
    Instr(Instr),
}

pub struct Instr {
    pub mnemonic: String,
    pub operands: Vec<Operand>,
}

/// An operand as written.
pub enum Operand {
    /// `r0`..`r31`
    Reg(u8),
    /// a literal: `42`, `0x2a`, `-1`, `'A'`
    Int(i128),
    /// a bare name, resolved to a label address later
    Sym(String),
    /// `[rb]`, `[rb + disp]`, `[rb - disp]`; the displacement is a literal
    Mem { base: u8, disp: i128 },
}

/// An operand in spec form.
pub enum OperandV {
    Reg(u8),
    Int(i128),
    Sym(Seq<char>),
    Mem { base: u8, disp: i128 },
}

impl View for Operand {
    type V = OperandV;

    open spec fn view(&self) -> OperandV {
        match self {
            Operand::Reg(r) => OperandV::Reg(*r),
            Operand::Int(v) => OperandV::Int(*v),
            Operand::Sym(s) => OperandV::Sym(s@),
            Operand::Mem { base, disp } => OperandV::Mem { base: *base, disp: *disp },
        }
    }
}

/// An instruction in spec form.
pub struct InstrV {
    pub mnemonic: Seq<char>,
    pub operands: Seq<OperandV>,
}

impl View for Instr {
    type V = InstrV;

    open spec fn view(&self) -> InstrV {
        InstrV {
            mnemonic: self.mnemonic@,
            operands: self.operands@.map_values(|o: Operand| o@),
        }
    }
}

/// A statement in spec form.
pub enum ItemV {
    Label(nat, Seq<char>),
    Instr(nat, InstrV),
}

impl View for Item {
    type V = ItemV;

    open spec fn view(&self) -> ItemV {
        match &self.kind {
            ItemKind::Label(s) => ItemV::Label(self.line as nat, s@),
            ItemKind::Instr(i) => ItemV::Instr(self.line as nat, i@),
        }
    }
}

/// The statements of a program, in spec form.
pub open spec fn item_views(v: Seq<Item>) -> Seq<ItemV> {
    v.map_values(|i: Item| i@)
}

} // verus!
