//! Source text to a flat byte image starting at address 0, in one pass: a
//! label records the current (aligned) address; an instruction is padded to
//! 2-byte alignment and encoded straight away, a label reference leaving an
//! 8-byte slot and a queued fixup. A second short walk writes each label's
//! 64-bit big-endian address into the slots.
use crate::assembler::ast::{item_views, ItemKind, ItemV};
use crate::assembler::encode::{build, build_err, build_spec, ADDR_WIDTH};
use crate::assembler::err::{at_quoted, at_spec, quoted_spec, Result};
use crate::assembler::isa::framing::{INSTR_ALIGN, OPCODE_PAD_NOP};
use crate::assembler::parser::{parse, parse_err, parse_spec};
use crate::text;
use crate::vea_sim::memory::be_bytes;
use vstd::prelude::*;

verus! {

pub struct Object {
    pub bytes: Vec<u8>,
    /// label -> address, in address order
    pub symbols: Vec<(String, u64)>,
}

/// `n` rounded up to even.
pub open spec fn align2(n: nat) -> nat {
    ((n + 1) / 2 * 2) as nat
}

/// `bytes` padded with zero bytes to an even length.
pub open spec fn padded(b: Seq<u8>) -> Seq<u8> {
    if b.len() % 2 == 0 {
        b
    } else {
        b.push(OPCODE_PAD_NOP)
    }
}

/// Whether a label is already defined.
pub open spec fn defined(labels: Seq<(Seq<char>, nat)>, name: Seq<char>) -> bool {
    exists|i: int| 0 <= i < labels.len() && (#[trigger] labels[i]).0 == name
}

/// The image so far, the labels (name, address) and the pending fixups
/// (slot offset, label) after the first pass over `items`; `None` on a
/// duplicate label or an instruction that does not encode.
pub open spec fn first_pass(items: Seq<ItemV>) -> Option<
    (Seq<u8>, Seq<(Seq<char>, nat)>, Seq<(nat, Seq<char>)>),
>
    decreases items.len(),
{
    if items.len() == 0 {
        Some((seq![], seq![], seq![]))
    } else {
        match first_pass(items.drop_last()) {
            None => None,
            Some((bytes, labels, fixups)) => match items.last() {
                ItemV::Label(_, name) => if defined(labels, name) {
                    None
                } else {
                    Some((bytes, labels.push((name, align2(bytes.len()))), fixups))
                },
                ItemV::Instr(_, ins) => match build_spec(ins) {
                    None => None,
                    Some((b, fx)) => {
                        let p = padded(bytes);
                        Some(
                            (
                                p + b,
                                labels,
                                match fx {
                                    None => fixups,
                                    Some((off, s)) => fixups.push((p.len() + off, s)),
                                },
                            ),
                        )
                    },
                },
            },
        }
    }
}

/// The address of the first label with this name.
pub open spec fn label_addr(labels: Seq<(Seq<char>, nat)>, name: Seq<char>, i: int) -> Option<nat>
    decreases labels.len() - i,
{
    if i < 0 || i >= labels.len() {
        None
    } else if labels[i].0 == name {
        Some(labels[i].1)
    } else {
        label_addr(labels, name, i + 1)
    }
}

/// `b` with the eight bytes at `at` replaced by the big-endian `a`.
pub open spec fn patched(b: Seq<u8>, at: nat, a: nat) -> Seq<u8> {
    Seq::new(
        b.len(),
        |i: int|
            if at <= i < at + 8 {
                be_bytes(a, 8)[i - at]
            } else {
                b[i]
            },
    )
}

/// The image with every fixup written; `None` for an undefined label.
pub open spec fn backfill(b: Seq<u8>, fixups: Seq<(nat, Seq<char>)>, labels: Seq<(Seq<char>, nat)>) -> Option<
    Seq<u8>,
>
    decreases fixups.len(),
{
    if fixups.len() == 0 {
        Some(b)
    } else {
        match backfill(b, fixups.drop_last(), labels) {
            None => None,
            Some(b1) => match label_addr(labels, fixups.last().1, 0) {
                None => None,
                Some(a) => Some(patched(b1, fixups.last().0, a)),
            },
        }
    }
}

/// The image and the symbol table of a source text.
pub open spec fn assemble_spec(src: Seq<char>) -> Option<(Seq<u8>, Seq<(Seq<char>, nat)>)> {
    match parse_spec(src) {
        None => None,
        Some(items) => match first_pass(items) {
            None => None,
            Some((bytes, labels, fixups)) => match backfill(bytes, fixups, labels) {
                None => None,
                Some(b) => Some((b, labels)),
            },
        },
    }
}

proof fn lemma_first_pass_labels_even(items: Seq<ItemV>)
    ensures
        first_pass(items) matches Some((b, labels, f)) ==> forall|i: int|
            0 <= i < labels.len() ==> (#[trigger] labels[i]).1 % 2 == 0,
    decreases items.len(),
{
    if items.len() > 0 {
        lemma_first_pass_labels_even(items.drop_last());
        match first_pass(items.drop_last()) {
            None => {},
            Some((bytes, labels, fixups)) => {
                let n = bytes.len();
                assert(align2(n) % 2 == 0) by {
                    assert(((n + 1) / 2 * 2) % 2 == 0) by (nonlinear_arith);
                }
            },
        }
    }
}

/// Frames start on 2-byte boundaries, so every label of an assembled
/// program sits at an even address.
pub proof fn law_labels_aligned(src: Seq<char>)
    requires
        assemble_spec(src) is Some,
    ensures
        forall|i: int|
            0 <= i < assemble_spec(src).unwrap().1.len() ==> (#[trigger] assemble_spec(src).unwrap().1[i]).1
                % 2 == 0,
{
    let items = parse_spec(src).unwrap();
    lemma_first_pass_labels_even(items);
}

/// The message of the first pass for the first item it refuses: a label
/// defined twice, or an instruction that does not encode.
pub open spec fn first_pass_err(items: Seq<ItemV>) -> Seq<char>
    decreases items.len(),
{
    if items.len() == 0 {
        seq![]
    } else if first_pass(items.drop_last()) is None {
        first_pass_err(items.drop_last())
    } else {
        match items.last() {
            ItemV::Label(line, name) => quoted_spec(line, "duplicate label"@, name),
            ItemV::Instr(line, ins) => at_spec(line, build_err(ins)),
        }
    }
}

/// The source line of each pending fixup, in order.
pub open spec fn fixup_lines(items: Seq<ItemV>) -> Seq<nat>
    decreases items.len(),
{
    if items.len() == 0 {
        seq![]
    } else {
        let init = fixup_lines(items.drop_last());
        match items.last() {
            ItemV::Instr(line, ins) => match build_spec(ins) {
                Some((_, Some(_))) => init.push(line),
                _ => init,
            },
            _ => init,
        }
    }
}

/// The message for the first fixup from `j` on whose label is not defined,
/// on the line of its instruction.
pub open spec fn backfill_err(
    fixups: Seq<(nat, Seq<char>)>,
    labels: Seq<(Seq<char>, nat)>,
    lines: Seq<nat>,
    j: int,
) -> Seq<char>
    decreases fixups.len() - j,
{
    if j < 0 || j >= fixups.len() {
        seq![]
    } else if label_addr(labels, fixups[j].1, 0) is None {
        quoted_spec(lines[j], "undefined label"@, fixups[j].1)
    } else {
        backfill_err(fixups, labels, lines, j + 1)
    }
}

/// The message for a source text that does not assemble: the parser's,
/// the first pass's, or that of the first undefined label.
pub open spec fn assemble_err(src: Seq<char>) -> Seq<char> {
    match parse_spec(src) {
        None => parse_err(src),
        Some(items) => match first_pass(items) {
            None => first_pass_err(items),
            Some((_, labels, fixups)) => backfill_err(fixups, labels, fixup_lines(items), 0),
        },
    }
}

proof fn lemma_first_pass_err_prefix(items: Seq<ItemV>, m: int)
    requires
        0 <= m <= items.len(),
        first_pass(items.take(m)) is None,
    ensures
        first_pass_err(items) == first_pass_err(items.take(m)),
    decreases items.len() - m,
{
    if m < items.len() {
        assert(items.take(m + 1).drop_last() == items.take(m));
        lemma_first_pass_err_prefix(items, m + 1);
    } else {
        assert(items.take(m) == items);
    }
}

/// `n` rounded up to the instruction alignment.
fn align_up(n: usize) -> (r: usize)
    requires
        n < usize::MAX,
    ensures
        r == align2(n as nat),
{
    (n + 1) / 2 * 2
}

fn pad_to_align(bytes: &mut Vec<u8>)
    ensures
        final(bytes)@ == padded(old(bytes)@),
{
    if bytes.len() % 2 != 0 {
        bytes.push(OPCODE_PAD_NOP);
    }
}

/// The views of a symbol table.
pub open spec fn sym_views(v: Seq<(String, u64)>) -> Seq<(Seq<char>, nat)> {
    v.map_values(|p: (String, u64)| (p.0@, p.1 as nat))
}

/// The views of the pending fixups.
pub open spec fn fix_views(v: Seq<(usize, String)>) -> Seq<(nat, Seq<char>)> {
    v.map_values(|p: (usize, String)| (p.0 as nat, p.1@))
}

fn find_label(labels: &Vec<(String, u64)>, name: &[char]) -> (r: Option<u64>)
    ensures
        match label_addr(sym_views(labels@), name@, 0) {
            Some(a) => r == Some(a as u64) && a == r.unwrap() as nat,
            None => r is None,
        },
{
    let ghost lv = sym_views(labels@);
    let mut i: usize = 0;
    while i < labels.len()
        invariant
            lv == sym_views(labels@),
            i <= labels@.len(),
            label_addr(lv, name@, 0) == label_addr(lv, name@, i as int),
        decreases labels.len() - i,
    {
        let c = text::str_chars(labels[i].0.as_str());
        assert(lv[i as int] == (labels@[i as int].0@, labels@[i as int].1 as nat));
        if text::chars_eq(c.as_slice(), name) {
            return Some(labels[i].1);
        }
        i += 1;
    }
    None
}

/// Assemble a source text (short enough that its image's length fits a
/// 32-bit `usize`).
pub fn assemble(src: &str) -> (r: Result<Object>)
    requires
        src@.len() < 0x800_0000,
    ensures
        match assemble_spec(src@) {
            Some((b, labels)) => r matches Ok(o) && o.bytes@ == b && sym_views(o.symbols@) == labels,
            None => r is Err,
        },
        r matches Err(e) ==> e@ == assemble_err(src@),
{
    let program = parse(src)?;
    let ghost items = item_views(program.items@);
    proof {
        crate::assembler::parser::lemma_parse_len(src@);
    }
    let mut bytes: Vec<u8> = Vec::new();
    let mut labels: Vec<(String, u64)> = Vec::new();
    let mut fixups: Vec<(usize, String)> = Vec::new();
    // the source line of each fixup, for the message when its label is missing
    let mut fix_lines: Vec<usize> = Vec::new();
    let mut k: usize = 0;
    while k < program.items.len()
        invariant
            items == item_views(program.items@),
            parse_spec(src@) == Some(items),
            k <= items.len(),
            first_pass(items.take(k as int)) == Some((bytes@, sym_views(labels@), fix_views(fixups@))),
            forall|q: int| 0 <= q < fixups@.len() ==> #[trigger] fixups@[q].0 + 8 <= bytes@.len(),
            bytes@.len() <= 20 * k,
            fix_lines@.len() == fixups@.len(),
            fix_lines@.map_values(|x: usize| x as nat) == fixup_lines(items.take(k as int)),
            items.len() <= src@.len() + 1,
            src@.len() < 0x800_0000,
        decreases items.len() - k,
    {
        proof {
            assert(items.take(k + 1).drop_last() == items.take(k as int));
            assert(items.take(k + 1).last() == items[k as int]);
            assert(items[k as int] == program.items@[k as int]@);
        }
        let item = &program.items[k];
        match &item.kind {
            ItemKind::Label(name) => {
                let nc = text::str_chars(name.as_str());
                if find_label(&labels, nc.as_slice()).is_some() {
                    proof {
                        lemma_label_found(sym_views(labels@), nc@);
                        lemma_first_pass_prefix(items, k + 1);
                    }
                    proof {
                        lemma_first_pass_err_prefix(items, k + 1);
                        assert(items.take(k + 1).drop_last() == items.take(k as int));
                    }
                    return Err(at_quoted(item.line, "duplicate label", nc.as_slice()));
                }
                proof {
                    lemma_label_missing(sym_views(labels@), nc@);
                }
                let addr = align_up(bytes.len()) as u64;
                let s = text::string_of(nc.as_slice());
                proof {
                    assert(sym_views(labels@.push((s, addr))) =~= sym_views(labels@).push(
                        (nc@, addr as nat),
                    ));
                }
                labels.push((s, addr));
            },
            ItemKind::Instr(ins) => {
                pad_to_align(&mut bytes);
                let enc = match build(ins) {
                    Ok(e) => e,
                    Err(e) => {
                        proof {
                            lemma_first_pass_prefix(items, k + 1);
                            lemma_first_pass_err_prefix(items, k + 1);
                            assert(items.take(k + 1).drop_last() == items.take(k as int));
                        }
                        let ec = text::str_chars(e.as_str());
                        let mut m = crate::vea_sim::error::Msg::new("line ");
                        m.dec(item.line as u64);
                        m.lit(": ");
                        m.chars(ec.as_slice());
                        return Err(m.string());
                    },
                };
                let base = bytes.len();
                proof {
                    crate::assembler::encode::lemma_build_len(ins@);
                }
                match enc.fixup {
                    Some(f) => {
                        let slot = base + f.at;
                        let sym = f.symbol;
                        proof {
                            assert(fix_views(fixups@.push((slot, sym))) =~= fix_views(fixups@).push(
                                (slot as nat, sym@),
                            ));
                        }
                        fixups.push((slot, sym));
                        proof {
                            assert(fix_lines@.push(item.line).map_values(|x: usize| x as nat) =~= fix_lines@.map_values(
                                |x: usize| x as nat,
                            ).push(item.line as nat));
                        }
                        fix_lines.push(item.line);
                    },
                    None => {},
                }
                let mut eb = enc.bytes;
                bytes.append(&mut eb);
            },
        }
        k += 1;
    }
    assert(items.take(k as int) == items);
    let ghost b0 = bytes@;
    let mut j: usize = 0;
    while j < fixups.len()
        invariant
            j <= fixups@.len(),
            fix_lines@.len() == fixups@.len(),
            assemble_err(src@) == backfill_err(
                fix_views(fixups@),
                sym_views(labels@),
                fix_lines@.map_values(|x: usize| x as nat),
                j as int,
            ),
            parse_spec(src@) == Some(items),
            first_pass(items) == Some((b0, sym_views(labels@), fix_views(fixups@))),
            bytes@.len() == b0.len(),
            forall|q: int| 0 <= q < fixups@.len() ==> #[trigger] fixups@[q].0 + 8 <= b0.len(),
            backfill(b0, fix_views(fixups@).take(j as int), sym_views(labels@)) == Some(bytes@),
        decreases fixups.len() - j,
    {
        let sc = text::str_chars(fixups[j].1.as_str());
        let a = match find_label(&labels, sc.as_slice()) {
            Some(a) => a,
            None => {
                proof {
                    let fx = fix_views(fixups@);
                    assert(fx.take(j + 1).drop_last() == fx.take(j as int));
                    assert(fx.take(j + 1).last() == fx[j as int]);
                    lemma_backfill_prefix(b0, fx, sym_views(labels@), j + 1);
                }
                return Err(at_quoted(fix_lines[j], "undefined label", sc.as_slice()));
            },
        };
        let off = fixups[j].0;
        assert(fixups@[j as int].0 + 8 <= b0.len());
        let enc = crate::vea_sim::assembler::lex::be_bytes_exec(a as u128, 8);
        let ghost before = bytes@;
        let blen = bytes.len();
        let mut i: usize = 0;
        while i < 8
            invariant
                i <= 8,
                blen == before.len(),
                off + 8 <= before.len(),
                bytes@.len() == before.len(),
                enc@ == be_bytes(a as nat, 8),
                forall|q: int|
                    0 <= q < before.len() ==> #[trigger] bytes@[q] == if off <= q < off + i {
                        enc@[q - off]
                    } else {
                        before[q]
                    },
            decreases 8 - i,
        {
            bytes.set(off + i, enc[i]);
            i += 1;
        }
        proof {
            let fx = fix_views(fixups@);
            assert(fx.take(j + 1).drop_last() == fx.take(j as int));
            assert(fx.take(j + 1).last() == fx[j as int]);
            assert(bytes@ =~= patched(before, off as nat, a as nat));
        }
        j += 1;
    }
    assert(fix_views(fixups@).take(j as int) == fix_views(fixups@));
    Ok(Object { bytes, symbols: labels })
}

proof fn lemma_label_found(labels: Seq<(Seq<char>, nat)>, name: Seq<char>)
    requires
        label_addr(labels, name, 0) is Some,
    ensures
        defined(labels, name),
{
    lemma_label_addr_in(labels, name, 0);
}

proof fn lemma_label_addr_in(labels: Seq<(Seq<char>, nat)>, name: Seq<char>, i: int)
    requires
        0 <= i,
        label_addr(labels, name, i) is Some,
    ensures
        defined(labels, name),
    decreases labels.len() - i,
{
    if i < labels.len() && labels[i].0 != name {
        lemma_label_addr_in(labels, name, i + 1);
    }
}

proof fn lemma_label_missing(labels: Seq<(Seq<char>, nat)>, name: Seq<char>)
    requires
        label_addr(labels, name, 0) is None,
    ensures
        !defined(labels, name),
{
    assert forall|i: int| 0 <= i < labels.len() implies (#[trigger] labels[i]).0 != name by {
        lemma_label_addr_none(labels, name, 0, i);
    }
}

proof fn lemma_label_addr_none(labels: Seq<(Seq<char>, nat)>, name: Seq<char>, j: int, i: int)
    requires
        0 <= j <= i < labels.len(),
        label_addr(labels, name, j) is None,
    ensures
        labels[i].0 != name,
    decreases i - j,
{
    if j < i {
        lemma_label_addr_none(labels, name, j + 1, i);
    }
}

proof fn lemma_first_pass_prefix(items: Seq<ItemV>, m: int)
    requires
        0 <= m <= items.len(),
        first_pass(items.take(m)) is None,
    ensures
        first_pass(items) is None,
    decreases items.len() - m,
{
    if m < items.len() {
        assert(items.take(m + 1).drop_last() == items.take(m));
        lemma_first_pass_prefix(items, m + 1);
    } else {
        assert(items.take(m) == items);
    }
}

proof fn lemma_backfill_prefix(
    b: Seq<u8>,
    fx: Seq<(nat, Seq<char>)>,
    labels: Seq<(Seq<char>, nat)>,
    m: int,
)
    requires
        0 <= m <= fx.len(),
        backfill(b, fx.take(m), labels) is None,
    ensures
        backfill(b, fx, labels) is None,
    decreases fx.len() - m,
{
    if m < fx.len() {
        assert(fx.take(m + 1).drop_last() == fx.take(m));
        lemma_backfill_prefix(b, fx, labels, m + 1);
    } else {
        assert(fx.take(m) == fx);
    }
}

} // verus!
