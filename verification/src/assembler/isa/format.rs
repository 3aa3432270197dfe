//! Operand shapes. The encoder reads two facts off a form: how many register
//! bytes go in the payload, and whether a trailing immediate follows.
use vstd::prelude::*;

verus! {

/// The syntactic shape of an instruction's operands.
#[derive(Clone, Copy, PartialEq, Eq, Debug)]
pub enum Form {
    /// `op`
    Nullary,
    /// `op rd`
    R,
    /// `op rd, rs`
    RR,
    /// `op rd, rs1, rs2`
    RRR,
    /// `op rd, #imm`
    RI,
    /// `op rd, rs, #imm`
    RRI,
    /// `op #imm` (jump / branch / call targets)
    I,
    /// `op rd, [rb + disp]` (loads and stores; disp is the immediate)
    RMem,
}

/// (register operand count, has a trailing immediate)
pub open spec fn shape_spec(f: Form) -> (u8, bool) {
    match f {
        Form::Nullary => (0, false),
        Form::R => (1, false),
        Form::RR => (2, false),
        Form::RRR => (3, false),
        Form::RI => (1, true),
        Form::RRI => (2, true),
        Form::I => (0, true),
        Form::RMem => (2, true),
    }
}

impl Form {
    /// (register operand count, has a trailing immediate)
    pub fn shape(self) -> (r: (u8, bool))
        ensures
            r == shape_spec(self),
    {
        match self {
            Form::Nullary => (0, false),
            Form::R => (1, false),
            Form::RR => (2, false),
            Form::RRR => (3, false),
            Form::RI => (1, true),
            Form::RRI => (2, true),
            Form::I => (0, true),
            Form::RMem => (2, true),
        }
    }

    pub fn reg_count(self) -> (n: u8)
        ensures
            n == shape_spec(self).0,
            n <= 3,
    {
        self.shape().0
    }

    pub fn has_imm(self) -> (b: bool)
        ensures
            b == shape_spec(self).1,
    {
        self.shape().1
    }
}

} // verus!
