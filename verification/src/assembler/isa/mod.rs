//! The machine definition: operand shapes, frame layout, the instruction
//! table and the register names.
pub mod format;
pub mod framing;
pub mod opcodes;
pub mod registers;
pub mod table_laws;

pub use format::Form;
pub use opcodes::{instructions, InstrDef};

use crate::text;
use vstd::prelude::*;

verus! {

/// The name of a form, as listed.
pub open spec fn form_name(f: Form) -> Seq<char> {
    match f {
        Form::Nullary => "Nullary"@,
        Form::R => "R"@,
        Form::RR => "RR"@,
        Form::RRR => "RRR"@,
        Form::RI => "RI"@,
        Form::RRI => "RRI"@,
        Form::I => "I"@,
        Form::RMem => "RMem"@,
    }
}

fn form_str(f: Form) -> (s: &'static str)
    ensures
        s@ == form_name(f),
{
    match f {
        Form::Nullary => "Nullary",
        Form::R => "R",
        Form::RR => "RR",
        Form::RRR => "RRR",
        Form::RI => "RI",
        Form::RRI => "RRI",
        Form::I => "I",
        Form::RMem => "RMem",
    }
}

/// One listing line: mnemonic padded to 6, opcode as `0x..`, form padded
/// to 8, flags, summary.
pub open spec fn listing_row(d: InstrDef) -> Seq<char> {
    crate::vea_sim::assembler::pad_right(d.mnemonic@, 6) + " "@ + seq!['0', 'x'] + text::zero_pad(text::digits(d.opcode as nat, 16), 2)
        + "  "@ + crate::vea_sim::assembler::pad_right(form_name(d.form), 8) + " flags="@
        + seq!['0', 'x'] + text::zero_pad(text::digits(d.flags as nat, 16), 1) + "  "@ + d.summary@ + "\n"@
}

/// One line per instruction, for the `--list-isa` option.
pub open spec fn listing_spec(rows: Seq<InstrDef>) -> Seq<char>
    decreases rows.len(),
{
    if rows.len() == 0 {
        seq![]
    } else {
        listing_spec(rows.drop_last()) + listing_row(rows.last())
    }
}

pub fn pad_to_public(v: &mut Vec<char>, w: usize)
    ensures
        final(v)@ == crate::vea_sim::assembler::pad_right(old(v)@, w as nat),
{
    let ghost s0 = v@;
    while v.len() < w
        invariant
            v@.len() >= s0.len(),
            s0.len() < w ==> v@.len() <= w,
            s0.len() >= w ==> v@.len() == s0.len(),
            v@ == s0 + Seq::new((v@.len() - s0.len()) as nat, |i: int| ' '),
        decreases w - v.len(),
    {
        v.push(' ');
        assert(v@ =~= s0 + Seq::new((v@.len() - s0.len()) as nat, |i: int| ' '));
    }
    proof {
        if s0.len() >= w {
            assert(v@ =~= s0);
        }
    }
}

/// One-line-per-instruction dump for the `--list-isa` option.
pub fn listing() -> (s: String)
    ensures
        s@ == listing_spec(opcodes::instructions_spec()),
{
    let rows = instructions();
    let mut out: Vec<char> = Vec::new();
    let mut k: usize = 0;
    while k < rows.len()
        invariant
            rows@ == opcodes::instructions_spec(),
            k <= rows@.len(),
            out@ == listing_spec(rows@.take(k as int)),
        decreases rows.len() - k,
    {
        let d = rows[k];
        let mut a = text::str_chars(d.mnemonic);
        pad_to_public(&mut a, 6);
        a.push(' ');
        let mut h = text::fmt_hex_prefixed(d.opcode as u64, 2);
        a.append(&mut h);
        a.push(' ');
        a.push(' ');
        let mut f = text::str_chars(form_str(d.form));
        pad_to_public(&mut f, 8);
        a.append(&mut f);
        let mut fl = text::str_chars(" flags=");
        a.append(&mut fl);
        let mut h2 = text::fmt_hex_prefixed(d.flags as u64, 1);
        a.append(&mut h2);
        a.push(' ');
        a.push(' ');
        let mut sm = text::str_chars(d.summary);
        a.append(&mut sm);
        a.push('\n');
        proof {
            reveal_strlit(" flags=");
            reveal_strlit(" ");
            reveal_strlit("  ");
            reveal_strlit("\n");
            assert(a@ =~= listing_row(d));
            assert(rows@.take(k + 1).drop_last() == rows@.take(k as int));
            assert(rows@.take(k + 1).last() == d);
        }
        out.append(&mut a);
        k += 1;
    }
    assert(rows@.take(k as int) == rows@);
    text::string_of(out.as_slice())
}

} // verus!
