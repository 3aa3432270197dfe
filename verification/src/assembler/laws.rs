//! How a program built from rows of the instruction table assembles: each
//! instruction is the frame its row describes (opcode, payload length and
//! flags, register bytes, the immediate in its fewest bytes), and the image
//! is those frames one after another, each started on an even address.
use crate::assembler::assemble::{assemble_spec, backfill, first_pass, padded};
use crate::assembler::parser::parse_spec;
use crate::assembler::ast::{InstrV, ItemV, OperandV};
use crate::assembler::encode::{build_spec, imm_bytes_of, min_width_spec, operands_for_spec, ImmV};
use crate::assembler::isa::format::Form;
use crate::assembler::isa::framing::frame_spec;
use crate::assembler::isa::opcodes::{by_mnemonic_spec, instructions_spec, InstrDef};
use crate::assembler::isa::table_laws::law_table_lookups;
use crate::text::spec_lower;
use crate::vea_sim::assembler::encode::low_bytes;
use vstd::prelude::*;

verus! {

/// The operands fit the row's form, name registers below 32 only, and
/// carry no label: an immediate is a literal that fits in 64 bits.
pub open spec fn row_operands(d: InstrDef, ops: Seq<OperandV>) -> bool {
    &&& operands_for_spec(d.form, ops) matches Some((regs, im)) && {
        &&& forall|i: int| 0 <= i < regs.len() ==> #[trigger] regs[i] < 32
        &&& !(im is Sym)
        &&& im matches ImmV::Int(v) ==> min_width_spec(v as int) <= 8
    }
}

/// The immediate bytes of the operands: none, or the value's fewest bytes,
/// big endian.
pub open spec fn imm_part(im: ImmV) -> Seq<u8> {
    match im {
        ImmV::Int(v) => low_bytes(v as int, min_width_spec(v as int) as nat),
        _ => seq![],
    }
}

/// The frame a row gives its operands: the opcode; the payload length
/// (register bytes and immediate bytes) in the high nibble and the row's
/// flags in the low nibble; the register bytes; the immediate.
pub open spec fn row_frame(d: InstrDef, ops: Seq<OperandV>) -> Seq<u8> {
    let (regs, im) = operands_for_spec(d.form, ops).unwrap();
    let imm = imm_part(im);
    seq![d.opcode, ((regs.len() + imm.len()) * 16 + d.flags) as u8] + regs + imm
}

/// An instruction written with a row's mnemonic (in any letter case) and
/// operands that fit its form encodes as the frame the row describes, with
/// no label to fill in.
pub proof fn law_build_row(k: int, ins: InstrV)
    requires
        0 <= k < instructions_spec().len(),
        spec_lower(ins.mnemonic) == instructions_spec()[k].mnemonic@,
        row_operands(instructions_spec()[k], ins.operands),
    ensures
        build_spec(ins) == Some((row_frame(instructions_spec()[k], ins.operands), None::<(nat, Seq<char>)>)),
{
    let d = instructions_spec()[k];
    law_table_lookups(k, ins.mnemonic);
    let (regs, im) = operands_for_spec(d.form, ins.operands).unwrap();
    assert(regs.len() <= 3);
    assert(im !is Absent ==> regs.len() <= 2);
    let imm = imm_part(im);
    assert(imm_bytes_of(im, regs.len()) == Some((imm, None::<(nat, Seq<char>)>)));
    assert(forall|i: int| 0 <= i < regs.len() ==> #[trigger] regs[i] < 32);
    let rm = regs.map_values(|r: u8| (r % 32) as u8);
    assert forall|i: int| 0 <= i < regs.len() implies #[trigger] rm[i] == regs[i] by {
        assert(regs[i] < 32);
    }
    assert(rm =~= regs);
    assert(frame_spec(d.opcode, d.flags, regs, imm) == Some(row_frame(d, ins.operands)));
}

/// Every item is an instruction written with some row's mnemonic and
/// operands that fit that row.
pub open spec fn row_program(items: Seq<ItemV>) -> bool {
    forall|i: int|
        0 <= i < items.len() ==> (#[trigger] items[i] matches ItemV::Instr(_, ins) && exists|k: int|
            0 <= k < instructions_spec().len() && spec_lower(ins.mnemonic)
                == #[trigger] instructions_spec()[k].mnemonic@ && row_operands(
                instructions_spec()[k],
                ins.operands,
            ))
}

/// The image of such a program: each frame in turn, padded to an even
/// address first.
pub open spec fn row_image(items: Seq<ItemV>) -> Seq<u8>
    decreases items.len(),
{
    if items.len() == 0 {
        seq![]
    } else {
        match items.last() {
            ItemV::Instr(_, ins) => padded(row_image(items.drop_last())) + row_frame(
                by_mnemonic_spec(ins.mnemonic).unwrap(),
                ins.operands,
            ),
            ItemV::Label(_, _) => row_image(items.drop_last()),
        }
    }
}

/// A program made of table rows assembles, in its first pass, to the frames
/// of its rows one after another, each on an even address, with no labels
/// and nothing left to fill in.
pub proof fn law_row_program(items: Seq<ItemV>)
    requires
        row_program(items),
    ensures
        first_pass(items) == Some((row_image(items), Seq::<(Seq<char>, nat)>::empty(), Seq::<(nat, Seq<char>)>::empty())),
    decreases items.len(),
{
    if items.len() > 0 {
        let init = items.drop_last();
        assert(row_program(init)) by {
            assert forall|i: int| 0 <= i < init.len() implies (#[trigger] init[i] matches ItemV::Instr(
                _,
                ins,
            ) && exists|k: int|
                0 <= k < instructions_spec().len() && spec_lower(ins.mnemonic)
                    == #[trigger] instructions_spec()[k].mnemonic@ && row_operands(
                    instructions_spec()[k],
                    ins.operands,
                )) by {
                assert(init[i] == items[i]);
            }
        }
        law_row_program(init);
        let last = items.last();
        assert(items[items.len() - 1] == last);
        match last {
            ItemV::Instr(_, ins) => {
                let k = choose|k: int|
                    0 <= k < instructions_spec().len() && spec_lower(ins.mnemonic)
                        == #[trigger] instructions_spec()[k].mnemonic@ && row_operands(
                        instructions_spec()[k],
                        ins.operands,
                    );
                law_build_row(k, ins);
                law_table_lookups(k, ins.mnemonic);
            },
            ItemV::Label(_, _) => {},
        }
    }
}

/// A source text that parses to such a program assembles to that image,
/// with no symbols.
pub proof fn law_row_source(src: Seq<char>)
    requires
        parse_spec(src) matches Some(items) && row_program(items),
    ensures
        assemble_spec(src) == Some((row_image(parse_spec(src).unwrap()), Seq::<(Seq<char>, nat)>::empty())),
{
    let items = parse_spec(src).unwrap();
    law_row_program(items);
    assert(backfill(row_image(items), Seq::<(nat, Seq<char>)>::empty(), Seq::<(Seq<char>, nat)>::empty())
        == Some(row_image(items)));
}

} // verus!
