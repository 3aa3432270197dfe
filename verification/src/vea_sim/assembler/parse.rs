//! From source lines to instructions tagged with the labels before them.
use crate::text::{self, spec_is_ws, trim};
use crate::vea_sim::assembler::insn::{
    self,
    arg_views, build_slots, build_slots_msg, build_slots_spec, find, find_spec, slot_views, InstructionFormat, Op,
    Slot, SlotV,
};
use crate::vea_sim::assembler::lex::{self, lines_from, lines_spec, split_args_spec,
    split_labels_spec, strip_comment_spec};
use crate::vea_sim::error::Msg;
use vstd::prelude::*;

verus! {

/// One source instruction: its line, its text, its format, its operands, the
/// labels that point at it, and (once laid out) its address.
pub struct Insn {
    pub line: usize,
    pub text: Vec<char>,
    pub fmt: InstructionFormat,
    pub slots: Vec<Slot>,
    pub labels: Vec<Vec<char>>,
    pub addr: u64,
}

/// An instruction in spec form.
pub struct InsnV {
    pub line: nat,
    pub text: Seq<char>,
    pub fmt: InstructionFormat,
    pub slots: Seq<SlotV>,
    pub labels: Seq<Seq<char>>,
    pub addr: int,
}

impl View for Insn {
    type V = InsnV;

    open spec fn view(&self) -> InsnV {
        InsnV {
            line: self.line as nat,
            text: self.text@,
            fmt: self.fmt,
            slots: slot_views(self.slots@),
            labels: arg_views(self.labels@),
            addr: self.addr as int,
        }
    }
}

/// The views of a list of instructions.
pub open spec fn insn_views(v: Seq<Insn>) -> Seq<InsnV> {
    v.map_values(|i: Insn| i@)
}

/// The shape every parsed instruction has: at most three operands, a
/// one-operand format really has its operand, and every label reference is
/// one to eight bytes wide.
pub open spec fn slots_wf(f: InstructionFormat, s: Seq<SlotV>) -> bool {
    &&& s.len() <= 3
    &&& (f.inst_type == Op::R__OR__I ==> s.len() >= 1)
    &&& forall|j: int|
        0 <= j < s.len() ==> (#[trigger] s[j] matches SlotV::Sym { width, .. } ==> 1 <= width
            <= 8)
    &&& forall|j: int| 0 <= j < s.len() - 1 ==> #[trigger] s[j] is Reg
}

/// Position of the first whitespace character at or after `i`, or `s.len()`.
pub open spec fn ws_from(s: Seq<char>, i: int) -> int
    decreases s.len() - i,
{
    if i < 0 || i >= s.len() {
        s.len() as int
    } else if spec_is_ws(s[i]) {
        i
    } else {
        ws_from(s, i + 1)
    }
}

pub proof fn lemma_ws_from(s: Seq<char>, i: int)
    requires
        0 <= i <= s.len(),
    ensures
        i <= ws_from(s, i) <= s.len(),
    decreases s.len() - i,
{
    if i < s.len() && !spec_is_ws(s[i]) {
        lemma_ws_from(s, i + 1);
    }
}

/// The operand strings after the mnemonic: nothing when the tail is empty.
pub open spec fn tail_args(tail: Seq<char>) -> Seq<Seq<char>> {
    if tail.len() == 0 {
        seq![]
    } else {
        split_args_spec(tail)
    }
}

/// One statement: the mnemonic up to the first whitespace, then a
/// comma-separated operand list.
pub open spec fn parse_insn_spec(ln: nat, stmt: Seq<char>) -> Option<InsnV> {
    let k = ws_from(stmt, 0);
    let mn = stmt.take(k);
    let tail = if k < stmt.len() {
        trim(stmt.skip(k + 1))
    } else {
        seq![]
    };
    match find_spec(mn) {
        None => None,
        Some(f) => match build_slots_spec(f, tail_args(tail)) {
            None => None,
            Some(sl) => Some(
                InsnV { line: ln, text: stmt, fmt: f, slots: sl, labels: seq![], addr: 0 },
            ),
        },
    }
}

/// The message for a statement that does not parse: an unknown mnemonic,
/// or operands its format does not take, prefixed with the line number.
pub open spec fn parse_insn_msg(ln: nat, stmt: Seq<char>) -> Seq<char> {
    let k = ws_from(stmt, 0);
    let mn = stmt.take(k);
    let tail = if k < stmt.len() {
        trim(stmt.skip(k + 1))
    } else {
        seq![]
    };
    "line "@ + text::digits(ln, 10) + match find_spec(mn) {
        None => ": unknown mnemonic '"@ + mn + "'"@,
        Some(f) => ": "@ + build_slots_msg(f, tail_args(tail)),
    }
}

/// The message for the first statement from line `i` on that does not
/// parse.
pub open spec fn parse_msg_from(ls: Seq<Seq<char>>, i: int) -> Seq<char>
    decreases ls.len() - i,
{
    if i < 0 || i >= ls.len() {
        seq![]
    } else {
        let stmt = split_labels_spec(trim(strip_comment_spec(ls[i]))).1;
        if stmt.len() != 0 && parse_insn_spec((i + 1) as nat, stmt) is None {
            parse_insn_msg((i + 1) as nat, stmt)
        } else {
            parse_msg_from(ls, i + 1)
        }
    }
}

/// The message for a source text that does not parse: that of its first
/// statement that does not.
pub open spec fn parse_msg(src: Seq<char>) -> Seq<char> {
    parse_msg_from(lines_spec(src), 0)
}

/// The instructions of lines `i..` (with `pending` labels waiting for the next
/// instruction) and the labels left over after the last one.
pub open spec fn parse_from(ls: Seq<Seq<char>>, i: int, pending: Seq<Seq<char>>) -> Option<
    (Seq<InsnV>, Seq<Seq<char>>),
>
    decreases ls.len() - i,
{
    if i < 0 || i >= ls.len() {
        Some((seq![], pending))
    } else {
        let rest = trim(strip_comment_spec(ls[i]));
        let (labs, stmt) = split_labels_spec(rest);
        if stmt.len() == 0 {
            parse_from(ls, i + 1, pending + labs)
        } else {
            match parse_insn_spec((i + 1) as nat, stmt) {
                None => None,
                Some(ins) => match parse_from(ls, i + 1, seq![]) {
                    None => None,
                    Some((more, trailing)) => Some(
                        (seq![InsnV { labels: pending + labs, ..ins }] + more, trailing),
                    ),
                },
            }
        }
    }
}

/// The instructions of a source text, and its trailing labels.
pub open spec fn parse_spec(src: Seq<char>) -> Option<(Seq<InsnV>, Seq<Seq<char>>)> {
    parse_from(lines_spec(src), 0, seq![])
}

proof fn lemma_lines_from(s: Seq<char>, i: int)
    requires
        0 <= i <= s.len(),
    ensures
        lines_from(s, i).len() <= s.len() + 1 - i,
        forall|k: int| 0 <= k < lines_from(s, i).len() ==> #[trigger] lines_from(s, i)[k].len() <= s.len(),
    decreases s.len() - i,
{
    if i < s.len() {
        let e = text::index_of(s, '\n', i);
        text::lemma_index_of(s, '\n', i);
        if e < s.len() {
            lemma_lines_from(s, e + 1);
            let l = lines_from(s, e + 1);
            assert(lines_from(s, i) == seq![strip_cr_of(s, i, e)] + l);
            assert forall|k: int| 0 <= k < lines_from(s, i).len() implies #[trigger] lines_from(
                s,
                i,
            )[k].len() <= s.len() by {
                if k > 0 {
                    assert(lines_from(s, i)[k] == l[k - 1]);
                }
            }
        }
    }
}

spec fn strip_cr_of(s: Seq<char>, i: int, e: int) -> Seq<char> {
    lex::strip_cr(s.subrange(i, e))
}

/// The lines of a text number at most one more than its characters, and none
/// is longer than the text.
pub proof fn lemma_lines_bound(s: Seq<char>)
    ensures
        lines_spec(s).len() <= s.len() + 1,
        forall|k: int| 0 <= k < lines_spec(s).len() ==> #[trigger] lines_spec(s)[k].len() <= s.len(),
{
    lemma_lines_from(s, 0);
}

/// Parse one statement (already trimmed, not empty).
pub fn parse_insn(ln: usize, stmt: &[char]) -> (r: Result<Insn, String>)
    requires
        stmt@.len() <= i32::MAX,
    ensures
        r is Ok <==> parse_insn_spec(ln as nat, stmt@) is Some,
        r matches Ok(i) ==> i@ == parse_insn_spec(ln as nat, stmt@).unwrap() && slots_wf(
            i.fmt,
            i@.slots,
        ) && i.labels@.len() == 0,
        r matches Err(e) ==> e@ == parse_insn_msg(ln as nat, stmt@),
{
    let mut k: usize = 0;
    while k < stmt.len() && !text::is_ws(stmt[k])
        invariant
            k <= stmt@.len(),
            ws_from(stmt@, 0) == ws_from(stmt@, k as int),
        decreases stmt.len() - k,
    {
        k += 1;
    }
    let mn = vstd::slice::slice_subrange(stmt, 0, k);
    assert(mn@ == stmt@.take(k as int));
    let tail: &[char] = if k < stmt.len() {
        let t = text::trim_slice(vstd::slice::slice_subrange(stmt, k + 1, stmt.len()));
        assert(stmt@.subrange(k + 1, stmt@.len() as int) == stmt@.skip(k + 1));
        proof {
            text::lemma_trim_len(stmt@.skip(k + 1));
        }
        t
    } else {
        &[]
    };
    assert(k >= stmt@.len() ==> tail@ == Seq::<char>::empty());
    let f = match find(mn) {
        Some(f) => f,
        None => {
            let mut m = Msg::new("line ");
            m.dec(ln as u64);
            m.lit(": unknown mnemonic '");
            m.chars(mn);
            m.lit("'");
            return Err(m.string());
        },
    };
    let args: Vec<Vec<char>> = if tail.len() == 0 {
        Vec::new()
    } else {
        lex::split_args(tail)
    };
    assert(arg_views(args@) =~= tail_args(tail@));
    let slots = match build_slots(&f, &args) {
        Ok(s) => s,
        Err(e) => {
            let mut m = Msg::new("line ");
            m.dec(ln as u64);
            m.lit(": ");
            let es = text::str_chars(e.as_str());
            m.chars(es.as_slice());
            return Err(m.string());
        },
    };
    proof {
        lemma_built_slots_wf(f, tail_args(tail@));
    }
    let text = text::copy_range(stmt, 0, stmt.len());
    assert(stmt@.subrange(0, stmt@.len() as int) == stmt@);
    let labels: Vec<Vec<char>> = Vec::new();
    assert(arg_views(labels@) =~= Seq::<Seq<char>>::empty());
    Ok(Insn { line: ln, text, fmt: f, slots, labels, addr: 0 })
}

proof fn lemma_operand_width(t: Seq<char>)
    requires
        insn::operand_spec(t) is Some,
    ensures
        insn::operand_spec(t).unwrap() matches SlotV::Sym { width, .. } ==> width == 1,
{
}

proof fn lemma_mem_not_sym(t: Seq<char>)
    requires
        insn::mem_spec(t) is Some,
    ensures
        insn::mem_spec(t).unwrap().1 !is Sym,
{
}

/// What `build_slots_spec` produces is well formed.
#[verifier::spinoff_prover]
#[verifier::rlimit(80)]
pub proof fn lemma_built_slots_wf(f: InstructionFormat, args: Seq<Seq<char>>)
    requires
        build_slots_spec(f, args) is Some,
    ensures
        slots_wf(f, build_slots_spec(f, args).unwrap()),
{
    let s = build_slots_spec(f, args).unwrap();
    if f.opcode == 0x40 || f.opcode == 0x41 {
        if f.opcode == 0x40 {
            lemma_mem_not_sym(args[1]);
        } else {
            lemma_mem_not_sym(args[0]);
        }
    } else {
        match f.inst_type {
            Op::NULL => {
                if s.len() > 0 {
                    lemma_operand_width(args[0]);
                }
            },
            Op::R__OR__I => {
                lemma_operand_width(args[0]);
            },
            Op::R_R__OR__R_I => {
                lemma_operand_width(args[1]);
            },
            Op::R_R_R__OR__R_R_IMM => {
                lemma_operand_width(args[2]);
            },
        }
    }
    assert forall|j: int| 0 <= j < s.len() implies (#[trigger] s[j] matches SlotV::Sym {
        width,
        ..
    } ==> 1 <= width <= 8) by {}
    lemma_built_slots_regs_first(f, args);
}

/// Only the last operand `build_slots_spec` produces can be anything but a
/// register.
proof fn lemma_built_slots_regs_first(f: InstructionFormat, args: Seq<Seq<char>>)
    requires
        build_slots_spec(f, args) is Some,
    ensures
        forall|j: int|
            0 <= j < build_slots_spec(f, args).unwrap().len() - 1 ==> #[trigger] build_slots_spec(
                f,
                args,
            ).unwrap()[j] is Reg,
{
    if f.opcode == 0x40 || f.opcode == 0x41 {
        lemma_mem_slots_regs(f, args);
    } else if f.inst_type == Op::R_R_R__OR__R_R_IMM {
        lemma_rrr_slots_regs(f, args);
    } else if f.inst_type == Op::R_R__OR__R_I {
        lemma_rr_slots_regs(f, args);
    } else {
        assert(build_slots_spec(f, args).unwrap().len() <= 1);
    }
}

#[verifier::spinoff_prover]
proof fn lemma_mem_slots_regs(f: InstructionFormat, args: Seq<Seq<char>>)
    requires
        build_slots_spec(f, args) is Some,
        f.opcode == 0x40 || f.opcode == 0x41,
    ensures
        build_slots_spec(f, args).unwrap().len() == 3,
        build_slots_spec(f, args).unwrap()[0] is Reg,
        build_slots_spec(f, args).unwrap()[1] is Reg,
{
    let (rtok, mtok) = if f.opcode == 0x40 {
        (args[0], args[1])
    } else {
        (args[1], args[0])
    };
    let (base, off) = insn::mem_spec(mtok).unwrap();
    let r = lex::reg_spec(rtok).unwrap();
    assert(build_slots_spec(f, args).unwrap() == seq![SlotV::Reg(r), SlotV::Reg(base), off]);
}

#[verifier::spinoff_prover]
#[verifier::rlimit(80)]
proof fn lemma_rrr_slots_regs(f: InstructionFormat, args: Seq<Seq<char>>)
    requires
        build_slots_spec(f, args) is Some,
        f.opcode != 0x40 && f.opcode != 0x41,
        f.inst_type == Op::R_R_R__OR__R_R_IMM,
    ensures
        build_slots_spec(f, args).unwrap().len() == 3,
        build_slots_spec(f, args).unwrap()[0] is Reg,
        build_slots_spec(f, args).unwrap()[1] is Reg,
{
}

proof fn lemma_rr_slots_regs(f: InstructionFormat, args: Seq<Seq<char>>)
    requires
        build_slots_spec(f, args) is Some,
        f.opcode != 0x40 && f.opcode != 0x41,
        f.inst_type == Op::R_R__OR__R_I,
    ensures
        build_slots_spec(f, args).unwrap().len() == 2,
        build_slots_spec(f, args).unwrap()[0] is Reg,
{
}

/// Parse every line into instructions tagged with the labels that precede
/// them; also hands back the labels after the last instruction.
#[verifier::spinoff_prover]
#[verifier::rlimit(60)]
pub fn parse_lines(src: &[char]) -> (r: Result<(Vec<Insn>, Vec<Vec<char>>), String>)
    requires
        src@.len() <= i32::MAX,
    ensures
        r is Ok <==> parse_spec(src@) is Some,
        r matches Ok((v, t)) ==> insn_views(v@) == parse_spec(src@).unwrap().0 && arg_views(t@)
            == parse_spec(src@).unwrap().1 && v@.len() <= src@.len() + 1 && (forall|k: int|
            0 <= k < v@.len() ==> slots_wf(#[trigger] v@[k].fmt, v@[k]@.slots)),
        r matches Err(e) ==> e@ == parse_msg(src@),
{
    let lines = lex::source_lines(src);
    proof {
        lemma_lines_bound(src@);
    }
    let ghost ls = lines_spec(src@);
    let mut insns: Vec<Insn> = Vec::new();
    let mut pending: Vec<Vec<char>> = Vec::new();
    let mut i: usize = 0;
    while i < lines.len()
        invariant
            ls == lines_spec(src@),
            ls.len() <= src@.len() + 1,
            src@.len() <= i32::MAX,
            forall|k: int| 0 <= k < ls.len() ==> #[trigger] ls[k].len() <= src@.len(),
            lines@.len() == ls.len(),
            forall|k: int| 0 <= k < lines@.len() ==> #[trigger] lines@[k]@ == ls[k],
            i <= lines@.len(),
            insns@.len() <= i,
            forall|k: int| 0 <= k < insns@.len() ==> slots_wf(#[trigger] insns@[k].fmt, insns@[k]@.slots),
            parse_spec(src@) == (match parse_from(ls, i as int, arg_views(pending@)) {
                None => None,
                Some((more, t)) => Some((insn_views(insns@) + more, t)),
            }),
            parse_msg(src@) == parse_msg_from(ls, i as int),
        decreases lines.len() - i,
    {
        let line = &lines[i];
        let rest = text::trim_slice(lex::strip_comment(line.as_slice()));
        let (labs, stmt) = lex::split_labels(rest);
        let ghost p0 = arg_views(pending@);
        assert(arg_views(labs@) =~= split_labels_spec(rest@).0);
        let mut j: usize = 0;
        while j < labs.len()
            invariant
                j <= labs@.len(),
                arg_views(pending@) == p0 + arg_views(labs@).take(j as int),
            decreases labs.len() - j,
        {
            let l = text::copy_range(labs[j].as_slice(), 0, labs[j].len());
            assert(labs@[j as int]@.subrange(0, labs@[j as int]@.len() as int) == labs@[j as int]@);
            proof {
                assert(arg_views(labs@)[j as int] == labs@[j as int]@);
                assert(arg_views(pending@.push(l)) =~= arg_views(pending@).push(l@));
                assert(arg_views(labs@).take(j + 1) =~= arg_views(labs@).take(j as int).push(l@));
            }
            pending.push(l);
            j += 1;
            assert(arg_views(pending@) =~= p0 + arg_views(labs@).take(j as int));
        }
        assert(arg_views(labs@).take(j as int) =~= arg_views(labs@));
        assert(stmt@ == split_labels_spec(trim(strip_comment_spec(ls[i as int]))).1);
        if stmt.len() == 0 {
            assert(parse_msg_from(ls, i as int) == parse_msg_from(ls, i + 1));
            i += 1;
            continue ;
        }
        proof {
            text::lemma_trim_len(strip_comment_spec(ls[i as int]));
            lex::lemma_cut_from(ls[i as int], 0);
            lemma_split_labels_len(rest@);
        }
        let mut ins = match parse_insn(i + 1, stmt.as_slice()) {
            Ok(ins) => ins,
            Err(e) => {
                assert(parse_msg_from(ls, i as int) == parse_insn_msg((i + 1) as nat, stmt@));
                return Err(e);
            },
        };
        assert(parse_msg_from(ls, i as int) == parse_msg_from(ls, i + 1));
        ins.labels = pending;
        pending = Vec::new();
        proof {
            assert(arg_views(pending@) =~= Seq::<Seq<char>>::empty());
            assert(insn_views(insns@.push(ins)) =~= insn_views(insns@).push(ins@));
        }
        insns.push(ins);
        i += 1;
        proof {
            assert forall|k: int| 0 <= k < insns@.len() implies slots_wf(
                #[trigger] insns@[k].fmt,
                insns@[k]@.slots,
            ) by {}
            let pi = parse_from(ls, i as int, seq![]);
            if pi is Some {
                let (more, t) = pi.unwrap();
                let iv = insns@.last()@;
                assert(insn_views(insns@) + more =~= insn_views(insns@.drop_last()) + (seq![iv]
                    + more));
            }
        }
    }
    proof {
        assert(insn_views(insns@) + Seq::<InsnV>::empty() =~= insn_views(insns@));
    }
    Ok((insns, pending))
}

/// What follows the labels of a statement is no longer than the statement.
pub proof fn lemma_split_labels_len(rest: Seq<char>)
    ensures
        split_labels_spec(rest).1.len() <= rest.len(),
    decreases rest.len(),
{
    let c = text::index_of(rest, ':', 0);
    if c < rest.len() {
        let name = trim(rest.take(c));
        if lex::is_ident_spec(name) {
            text::lemma_index_of(rest, ':', 0);
            text::lemma_trim_len(rest.skip(c + 1));
            lemma_split_labels_len(trim(rest.skip(c + 1)));
        }
    }
}

proof fn lemma_parse_from_shape(ls: Seq<Seq<char>>, i: int, pending: Seq<Seq<char>>)
    requires
        0 <= i <= ls.len(),
        parse_from(ls, i, pending) is Some,
    ensures
        parse_from(ls, i, pending).unwrap().0.len() <= ls.len() - i,
        forall|k: int|
            0 <= k < parse_from(ls, i, pending).unwrap().0.len() ==> slots_wf(
                #[trigger] parse_from(ls, i, pending).unwrap().0[k].fmt,
                parse_from(ls, i, pending).unwrap().0[k].slots,
            ),
    decreases ls.len() - i,
{
    if i < ls.len() {
        let rest = trim(strip_comment_spec(ls[i]));
        let (labs, stmt) = split_labels_spec(rest);
        if stmt.len() == 0 {
            lemma_parse_from_shape(ls, i + 1, pending + labs);
        } else {
            let ins = parse_insn_spec((i + 1) as nat, stmt).unwrap();
            lemma_parse_from_shape(ls, i + 1, seq![]);
            let k0 = ws_from(stmt, 0);
            let tail = if k0 < stmt.len() {
                trim(stmt.skip(k0 + 1))
            } else {
                seq![]
            };
            lemma_built_slots_wf(find_spec(stmt.take(k0)).unwrap(), tail_args(tail));
            let more = parse_from(ls, i + 1, seq![]).unwrap().0;
            let all = parse_from(ls, i, pending).unwrap().0;
            assert forall|k: int| 0 <= k < all.len() implies slots_wf(
                #[trigger] all[k].fmt,
                all[k].slots,
            ) by {
                if k > 0 {
                    assert(all[k] == more[k - 1]);
                }
            }
        }
    }
}

/// A parsed program has at most one instruction per line and every
/// instruction is well formed.
pub proof fn lemma_parse_shape(src: Seq<char>)
    requires
        parse_spec(src) is Some,
    ensures
        parse_spec(src).unwrap().0.len() <= src.len() + 1,
        forall|k: int|
            0 <= k < parse_spec(src).unwrap().0.len() ==> slots_wf(
                #[trigger] parse_spec(src).unwrap().0[k].fmt,
                parse_spec(src).unwrap().0[k].slots,
            ),
{
    lemma_lines_bound(src);
    lemma_parse_from_shape(lines_spec(src), 0, seq![]);
}

} // verus!
