//! Label layout. Every instruction is placed at the running address, padded
//! to the next alignment boundary; label references start one byte wide and
//! grow, round after round, until no width changes. A relative (branch)
//! reference is measured from the branch itself and capped at four bytes;
//! an absolute one is capped at eight.
use crate::text;
use crate::vea_sim::assembler::insn::{arg_views, slot_views, Slot, SlotV};
use crate::vea_sim::assembler::lex::{self, imm_width, sym_width_spec};
use crate::vea_sim::assembler::parse::{insn_views, parse_lines, parse_msg, parse_spec, slots_wf, Insn, InsnV};
use crate::vea_sim::error::Msg;
use crate::vea_sim::isa::{self, spec_align_up};
use vstd::prelude::*;

verus! {

/// Byte cost of an operand.
pub open spec fn slot_size(s: SlotV) -> nat {
    match s {
        SlotV::Reg(_) => 1,
        SlotV::Num(v) => imm_width(v as int),
        SlotV::Sym { width, .. } => width,
    }
}

/// Byte cost of an operand list.
pub open spec fn slots_size(s: Seq<SlotV>) -> nat
    decreases s.len(),
{
    if s.len() == 0 {
        0
    } else {
        slots_size(s.drop_last()) + slot_size(s.last())
    }
}

/// Length of an instruction's frame: opcode, opinfo, operands.
pub open spec fn insn_size(i: InsnV) -> nat {
    2 + slots_size(i.slots)
}

/// Every instruction of a program is well formed.
pub open spec fn prog_wf(s: Seq<InsnV>) -> bool {
    forall|k: int| 0 <= k < s.len() ==> slots_wf(#[trigger] s[k].fmt, s[k].slots)
}

/// Address just past the (padded) instructions of `s`.
pub open spec fn layout_end(s: Seq<InsnV>) -> int
    decreases s.len(),
{
    if s.len() == 0 {
        0
    } else {
        layout_end(s.drop_last()) + spec_align_up(insn_size(s.last()) as int, 4)
    }
}

/// The instruction moved to address `a`.
pub open spec fn with_addr(i: InsnV, a: int) -> InsnV {
    InsnV { addr: a, ..i }
}

/// Each instruction at the address its predecessors leave it.
pub open spec fn placed(s: Seq<InsnV>) -> Seq<InsnV> {
    Seq::new(s.len(), |k: int| with_addr(s[k], layout_end(s.take(k))))
}

/// Label names paired with one address.
pub open spec fn entries_of(labels: Seq<Seq<char>>, a: int) -> Seq<(Seq<char>, int)> {
    labels.map_values(|l: Seq<char>| (l, a))
}

/// The labels of the instructions, each with its instruction's address, in
/// order.
pub open spec fn label_entries(s: Seq<InsnV>) -> Seq<(Seq<char>, int)>
    decreases s.len(),
{
    if s.len() == 0 {
        seq![]
    } else {
        label_entries(s.drop_last()) + entries_of(s.last().labels, layout_end(s.drop_last()))
    }
}

/// All symbol definitions: instruction labels, then the trailing labels at
/// the end address (a trailing label redefines an earlier one).
pub open spec fn all_entries(s: Seq<InsnV>, tr: Seq<Seq<char>>) -> Seq<(Seq<char>, int)> {
    label_entries(s) + entries_of(tr, layout_end(s))
}

/// Some name is defined twice.
pub open spec fn has_dup(e: Seq<(Seq<char>, int)>) -> bool {
    exists|i: int, j: int| 0 <= i < j < e.len() && #[trigger] e[i].0 == #[trigger] e[j].0
}

/// The latest definition of a name.
pub open spec fn lookup(e: Seq<(Seq<char>, int)>, name: Seq<char>) -> Option<int>
    decreases e.len(),
{
    if e.len() == 0 {
        None
    } else if e.last().0 == name {
        Some(e.last().1)
    } else {
        lookup(e.drop_last(), name)
    }
}

/// Branches (`b` and its variants) are relative to their own address.
pub open spec fn is_relative(i: InsnV) -> bool {
    i.fmt.opcode == 0x30
}

/// The value a label reference stands for at an instruction.
pub open spec fn sym_value(e: Seq<(Seq<char>, int)>, name: Seq<char>, i: InsnV) -> Option<int> {
    match lookup(e, name) {
        None => None,
        Some(t) => Some(
            if is_relative(i) {
                t - i.addr
            } else {
                t
            },
        ),
    }
}

/// The width an operand needs (zero for anything but a label reference);
/// `None` when its label is unknown or too far.
pub open spec fn slot_need(sl: SlotV, e: Seq<(Seq<char>, int)>, i: InsnV) -> Option<nat> {
    match sl {
        SlotV::Sym { name, .. } => match sym_value(e, name, i) {
            None => None,
            Some(v) => sym_width_spec(v, is_relative(i)),
        },
        _ => Some(0),
    }
}

/// An operand after one round: a label reference is widened to what it needs.
pub open spec fn grown_slot(sl: SlotV, e: Seq<(Seq<char>, int)>, i: InsnV) -> SlotV {
    match sl {
        SlotV::Sym { name, width } => SlotV::Sym {
            name,
            width: if slot_need(sl, e, i).unwrap() > width {
                slot_need(sl, e, i).unwrap()
            } else {
                width
            },
        },
        _ => sl,
    }
}

/// Every operand of the instruction resolves.
pub open spec fn insn_ok(i: InsnV, e: Seq<(Seq<char>, int)>) -> bool {
    forall|j: int| 0 <= j < i.slots.len() ==> (#[trigger] slot_need(i.slots[j], e, i)) is Some
}

/// Some label reference of the instruction must grow.
pub open spec fn insn_grows(i: InsnV, e: Seq<(Seq<char>, int)>) -> bool {
    exists|j: int|
        0 <= j < i.slots.len() && (#[trigger] i.slots[j] matches SlotV::Sym { width, .. } && slot_need(
            i.slots[j],
            e,
            i,
        ).unwrap() > width)
}

/// The instruction after one round.
pub open spec fn grow_insn(i: InsnV, e: Seq<(Seq<char>, int)>) -> InsnV {
    InsnV { slots: i.slots.map_values(|sl: SlotV| grown_slot(sl, e, i)), ..i }
}

/// A round succeeds: no label is defined twice and every reference resolves.
pub open spec fn round_ok(s: Seq<InsnV>, tr: Seq<Seq<char>>) -> bool {
    &&& !has_dup(label_entries(s))
    &&& forall|k: int| 0 <= k < s.len() ==> insn_ok(#[trigger] placed(s)[k], all_entries(s, tr))
}

/// A round widens some reference.
pub open spec fn round_grows(s: Seq<InsnV>, tr: Seq<Seq<char>>) -> bool {
    exists|k: int| 0 <= k < s.len() && insn_grows(#[trigger] placed(s)[k], all_entries(s, tr))
}

/// The program after one round.
pub open spec fn grown(s: Seq<InsnV>, tr: Seq<Seq<char>>) -> Seq<InsnV> {
    placed(s).map_values(|i: InsnV| grow_insn(i, all_entries(s, tr)))
}

/// Relaxation with at most `fuel` rounds: the program of the first round
/// that widens nothing, or `None` on an error or when the rounds run out.
pub open spec fn relax(s: Seq<InsnV>, tr: Seq<Seq<char>>, fuel: nat) -> Option<Seq<InsnV>>
    decreases fuel,
{
    if fuel == 0 || !round_ok(s, tr) {
        None
    } else if !round_grows(s, tr) {
        Some(grown(s, tr))
    } else {
        relax(grown(s, tr), tr, (fuel - 1) as nat)
    }
}

/// The views of a symbol table.
pub open spec fn entry_views(e: Seq<(Vec<char>, u64)>) -> Seq<(Seq<char>, int)> {
    e.map_values(|p: (Vec<char>, u64)| (p.0@, p.1 as int))
}

/// Addresses stay below this in any program this assembler accepts.
pub open spec fn addr_cap() -> int {
    0x100_0000_0000
}

/// Instructions in a program this assembler accepts.
pub open spec fn insn_cap() -> int {
    0x1_0000_0000
}

proof fn lemma_slots_size(s: Seq<SlotV>)
    requires
        forall|j: int|
            0 <= j < s.len() ==> (#[trigger] s[j] matches SlotV::Sym { width, .. } ==> width <= 8),
    ensures
        slots_size(s) <= 8 * s.len(),
    decreases s.len(),
{
    if s.len() > 0 {
        lemma_slots_size(s.drop_last());
        assert(s.last() == s[s.len() - 1]);
    }
}

fn slot_size_exec(s: &Slot) -> (n: usize)
    ensures
        n == slot_size(s@),
{
    match s {
        Slot::Reg(_) => 1,
        Slot::Num(v) => lex::imm_width_exec(*v),
        Slot::Sym { width, .. } => *width,
    }
}

fn insn_size_exec(i: &Insn) -> (n: usize)
    requires
        slots_wf(i.fmt, i@.slots),
    ensures
        n == insn_size(i@),
        n <= 26,
{
    let ghost s = i@.slots;
    proof {
        lemma_slots_size(s);
    }
    let mut n: usize = 2;
    let mut j: usize = 0;
    while j < i.slots.len()
        invariant
            s == slot_views(i.slots@),
            s.len() <= 3,
            j <= s.len(),
            n == 2 + slots_size(s.take(j as int)),
            forall|q: int|
                0 <= q < s.len() ==> (#[trigger] s[q] matches SlotV::Sym { width, .. } ==> width
                    <= 8),
        decreases s.len() - j,
    {
        proof {
            assert(s.take(j + 1).drop_last() == s.take(j as int));
            lemma_slots_size(s.take(j + 1));
            assert(s[j as int] == i.slots@[j as int]@);
        }
        n = n + slot_size_exec(&i.slots[j]);
        j += 1;
    }
    assert(s.take(j as int) == s);
    n
}

proof fn lemma_step(i: InsnV)
    requires
        insn_size(i) <= 26,
    ensures
        0 < spec_align_up(insn_size(i) as int, 4) <= 28,
{
    isa::lemma_align_up(insn_size(i) as int, 4);
}

proof fn lemma_entries_take(s: Seq<InsnV>, k: int)
    requires
        0 <= k < s.len(),
    ensures
        label_entries(s.take(k + 1)) == label_entries(s.take(k)) + entries_of(
            s[k].labels,
            layout_end(s.take(k)),
        ),
        layout_end(s.take(k + 1)) == layout_end(s.take(k)) + spec_align_up(
            insn_size(s[k]) as int,
            4,
        ),
{
    assert(s.take(k + 1).drop_last() == s.take(k));
}

/// The labels of a prefix come first among the labels of the whole program.
proof fn lemma_entries_prefix(s: Seq<InsnV>, m: int)
    requires
        0 <= m <= s.len(),
    ensures
        label_entries(s.take(m)).len() <= label_entries(s).len(),
        label_entries(s).take(label_entries(s.take(m)).len() as int) == label_entries(s.take(m)),
    decreases s.len() - m,
{
    if m == s.len() {
        assert(s.take(m) == s);
    } else {
        lemma_entries_prefix(s, m + 1);
        lemma_entries_take(s, m);
        let a = label_entries(s.take(m));
        let b = label_entries(s.take(m + 1));
        assert(b.take(a.len() as int) == a);
        assert(label_entries(s).take(a.len() as int) == b.take(a.len() as int));
    }
}

proof fn lemma_dup_prefix(e: Seq<(Seq<char>, int)>, f: Seq<(Seq<char>, int)>)
    requires
        f.len() <= e.len(),
        e.take(f.len() as int) == f,
        has_dup(f),
    ensures
        has_dup(e),
{
    let (i, j) = choose|i: int, j: int| 0 <= i < j < f.len() && #[trigger] f[i].0 == #[trigger] f[j].0;
    assert(e[i] == f[i] && e[j] == f[j]);
}

fn same_name(a: &Vec<char>, b: &Vec<char>) -> (r: bool)
    ensures
        r == (a@ == b@),
{
    text::chars_eq(a.as_slice(), b.as_slice())
}

fn tab_has(e: &Vec<(Vec<char>, u64)>, name: &Vec<char>) -> (r: bool)
    ensures
        r == exists|i: int| 0 <= i < e@.len() && #[trigger] entry_views(e@)[i].0 == name@,
{
    let mut i: usize = 0;
    while i < e.len()
        invariant
            i <= e@.len(),
            forall|q: int| 0 <= q < i ==> #[trigger] entry_views(e@)[q].0 != name@,
        decreases e.len() - i,
    {
        assert(entry_views(e@)[i as int].0 == e@[i as int].0@);
        if same_name(&e[i].0, name) {
            return true;
        }
        i += 1;
    }
    false
}

/// The latest definition of `name` in the table.
pub fn tab_get(e: &Vec<(Vec<char>, u64)>, name: &[char]) -> (r: Option<u64>)
    ensures
        match lookup(entry_views(e@), name@) {
            None => r is None,
            Some(a) => r == Some(a as u64) && a == r.unwrap() as int,
        },
{
    let ghost ev = entry_views(e@);
    let mut i: usize = e.len();
    assert(ev.take(i as int) == ev);
    while i > 0
        invariant
            i <= e@.len(),
            ev == entry_views(e@),
            lookup(ev, name@) == lookup(ev.take(i as int), name@),
        decreases i,
    {
        assert(ev.take(i as int).drop_last() == ev.take(i - 1));
        assert(ev.take(i as int).last() == (e@[i - 1].0@, e@[i - 1].1 as int));
        if text::chars_eq(e[i - 1].0.as_slice(), name) {
            return Some(e[i - 1].1);
        }
        i -= 1;
    }
    None
}

/// Place every instruction at its address and collect the symbol table;
/// fails when an instruction label is defined twice.
fn place(insns: &mut Vec<Insn>, trailing: &Vec<Vec<char>>) -> (r: Result<
    Vec<(Vec<char>, u64)>,
    String,
>)
    requires
        old(insns)@.len() <= insn_cap(),
        prog_wf(insn_views(old(insns)@)),
    ensures
        r is Ok ==> insn_views(final(insns)@) == placed(insn_views(old(insns)@)),
        r is Ok <==> !has_dup(label_entries(insn_views(old(insns)@))),
        r matches Ok(e) ==> entry_views(e@) == all_entries(
            insn_views(old(insns)@),
            arg_views(trailing@),
        ),
        layout_end(insn_views(old(insns)@)) <= 28 * old(insns)@.len(),
{
    let ghost s = insn_views(insns@);
    let mut a: u64 = 0;
    let mut e: Vec<(Vec<char>, u64)> = Vec::new();
    let mut k: usize = 0;
    proof {
        lemma_layout_bound(s, s.len() as int);
        assert(s.take(s.len() as int) == s);
    }
    while k < insns.len()
        invariant
            s == insn_views(old(insns)@),
            s.len() == insns@.len(),
            s.len() <= insn_cap(),
            prog_wf(s),
            layout_end(s) <= 28 * s.len(),
            k <= s.len(),
            a == layout_end(s.take(k as int)),
            a <= 28 * k,
            forall|i: int| 0 <= i < k ==> #[trigger] insns@[i]@ == with_addr(s[i], layout_end(s.take(i))),
            forall|i: int| k <= i < s.len() ==> #[trigger] insns@[i]@ == s[i],
            entry_views(e@) == label_entries(s.take(k as int)),
            !has_dup(entry_views(e@)),
        decreases s.len() - k,
    {
        assert(insns@[k as int]@ == s[k as int]);
        assert(slots_wf(s[k as int].fmt, s[k as int].slots));
        let n = insn_size_exec(&insns[k]);
        proof {
            lemma_step(s[k as int]);
            lemma_entries_take(s, k as int);
        }
        let ghost e0 = entry_views(e@);
        let nl = insns[k].labels.len();
        let mut j: usize = 0;
        while j < nl
            invariant
                nl == s[k as int].labels.len(),
                s == insn_views(old(insns)@),
                layout_end(s) <= 28 * s.len(),
                insns@[k as int]@ == s[k as int],
                j <= nl,
                entry_views(e@) == e0 + entries_of(s[k as int].labels.take(j as int), a as int),
                e0 == label_entries(s.take(k as int)),
                !has_dup(entry_views(e@)),
                k < s.len(),
                s.len() == insns@.len(),
                a == layout_end(s.take(k as int)),
                label_entries(s.take(k + 1)) == e0 + entries_of(s[k as int].labels, a as int),
            decreases nl - j,
        {
            let l = &insns[k].labels[j];
            assert(l@ == s[k as int].labels[j as int]);
            if tab_has(&e, l) {
                proof {
                    let ev = entry_views(e@);
                    let full = label_entries(s.take(k + 1));
                    let f = ev.push((l@, a as int));
                    assert(f == e0 + entries_of(s[k as int].labels.take(j + 1), a as int));
                    assert(full.take(f.len() as int) == f);
                    let q = choose|q: int| 0 <= q < e@.len() && #[trigger] ev[q].0 == l@;
                    assert(f[q].0 == f[ev.len() as int].0);
                    assert(has_dup(f));
                    lemma_dup_prefix(full, f);
                    lemma_entries_prefix(s, k + 1);
                    lemma_dup_prefix(label_entries(s), full);
                }
                let mut m = Msg::new("line ");
                m.dec(insns[k].line as u64);
                m.lit(": duplicate label '");
                m.chars(l.as_slice());
                m.lit("'");
                return Err(m.string());
            }
            let c = text::copy_range(l.as_slice(), 0, l.len());
            assert(l@.subrange(0, l@.len() as int) == l@);
            proof {
                let ev = entry_views(e@);
                assert forall|x: int, y: int| 0 <= x < y < ev.len() + 1 implies #[trigger] ev.push(
                    (c@, a as int),
                )[x].0 != #[trigger] ev.push((c@, a as int))[y].0 by {
                    if y == ev.len() {
                        assert(ev[x].0 != l@);
                    } else {
                        assert(ev[x].0 != ev[y].0);
                    }
                }
                assert(entry_views(e@.push((c, a))) =~= ev.push((c@, a as int)));
                assert(entries_of(s[k as int].labels.take(j + 1), a as int) =~= entries_of(
                    s[k as int].labels.take(j as int),
                    a as int,
                ).push((c@, a as int)));
            }
            e.push((c, a));
            j += 1;
        }
        assert(s[k as int].labels.take(j as int) == s[k as int].labels);
        insns[k].addr = a;
        proof {
            assert(insns@[k as int]@ == with_addr(s[k as int], layout_end(s.take(k as int))));
        }
        a = a + isa::align_up(n as u64, 4);
        k += 1;
    }
    assert(s.take(k as int) == s);
    let ghost e1 = entry_views(e@);
    let mut t: usize = 0;
    while t < trailing.len()
        invariant
            t <= trailing@.len(),
            entry_views(e@) == e1 + entries_of(arg_views(trailing@).take(t as int), a as int),
        decreases trailing.len() - t,
    {
        let c = text::copy_range(trailing[t].as_slice(), 0, trailing[t].len());
        proof {
            assert(trailing@[t as int]@.subrange(0, trailing@[t as int]@.len() as int)
                == trailing@[t as int]@);
            assert(entry_views(e@.push((c, a))) =~= entry_views(e@).push((c@, a as int)));
            assert(entries_of(arg_views(trailing@).take(t + 1), a as int) =~= entries_of(
                arg_views(trailing@).take(t as int),
                a as int,
            ).push((c@, a as int)));
        }
        e.push((c, a));
        t += 1;
    }
    assert(arg_views(trailing@).take(t as int) == arg_views(trailing@));
    assert(insn_views(insns@) =~= placed(s));
    Ok(e)
}

/// The end address grows by at most 28 per instruction.
pub proof fn lemma_layout_bound(s: Seq<InsnV>, m: int)
    requires
        0 <= m <= s.len(),
        prog_wf(s),
    ensures
        0 <= layout_end(s.take(m)) <= 28 * m,
    decreases m,
{
    if m > 0 {
        lemma_layout_bound(s, m - 1);
        lemma_entries_take(s, m - 1);
        assert(slots_wf(s[m - 1].fmt, s[m - 1].slots));
        lemma_slots_size(s[m - 1].slots);
        lemma_step(s[m - 1]);
    } else {
        assert(s.take(0).len() == 0);
    }
    if m == s.len() {
        assert(s.take(m) == s);
    }
}

/// Every defined address is below the cap.
pub open spec fn entries_below(e: Seq<(Seq<char>, int)>, cap: int) -> bool {
    forall|q: int| 0 <= q < e.len() ==> 0 <= #[trigger] e[q].1 < cap
}

proof fn lemma_lookup_below(e: Seq<(Seq<char>, int)>, name: Seq<char>, cap: int)
    requires
        entries_below(e, cap),
    ensures
        lookup(e, name) matches Some(a) ==> 0 <= a < cap,
    decreases e.len(),
{
    if e.len() > 0 {
        assert(e.last() == e[e.len() - 1]);
        lemma_lookup_below(e.drop_last(), name, cap);
    }
}

fn grow_slots(ins: &Insn, e: &Vec<(Vec<char>, u64)>) -> (r: Result<(Vec<Slot>, bool), String>)
    requires
        slots_wf(ins.fmt, ins@.slots),
        ins.addr < addr_cap(),
        entries_below(entry_views(e@), addr_cap()),
    ensures
        r is Ok <==> insn_ok(ins@, entry_views(e@)),
        r matches Ok((v, g)) ==> slot_views(v@) == grow_insn(ins@, entry_views(e@)).slots && g
            == insn_grows(ins@, entry_views(e@)) && slots_wf(ins.fmt, slot_views(v@)),
{
    let ghost ev = entry_views(e@);
    let ghost iv = ins@;
    let ghost target = grow_insn(iv, ev).slots;
    let rel = ins.fmt.opcode == 0x30;
    let mut out: Vec<Slot> = Vec::new();
    let mut grew = false;
    let mut j: usize = 0;
    while j < ins.slots.len()
        invariant
            iv == ins@,
            ev == entry_views(e@),
            target == grow_insn(iv, ev).slots,
            rel == is_relative(iv),
            slots_wf(ins.fmt, iv.slots),
            ins.addr < addr_cap(),
            entries_below(ev, addr_cap()),
            j <= iv.slots.len(),
            slot_views(out@) == target.take(j as int),
            forall|q: int| 0 <= q < j ==> (#[trigger] slot_need(iv.slots[q], ev, iv)) is Some,
            grew == exists|q: int|
                0 <= q < j && (#[trigger] iv.slots[q] matches SlotV::Sym { width, .. } && slot_need(
                    iv.slots[q],
                    ev,
                    iv,
                ).unwrap() > width),
        decreases iv.slots.len() - j,
    {
        let ghost sv = iv.slots[j as int];
        assert(sv == ins.slots@[j as int]@);
        let ns: Slot = match &ins.slots[j] {
            Slot::Reg(r) => Slot::Reg(*r),
            Slot::Num(v) => Slot::Num(*v),
            Slot::Sym { name, width } => {
                let t = match tab_get(e, name.as_slice()) {
                    Some(t) => t,
                    None => {
                        let mut m = Msg::new("line ");
                        m.dec(ins.line as u64);
                        m.lit(": unknown label '");
                        m.chars(name.as_slice());
                        m.lit("'");
                        return Err(m.string());
                    },
                };
                proof {
                    lemma_lookup_below(ev, name@, addr_cap());
                }
                let value: i64 = if rel {
                    t as i64 - ins.addr as i64
                } else {
                    t as i64
                };
                assert(sym_value(ev, name@, iv) == Some(value as int));
                let need = match lex::sym_width(value, rel) {
                    Ok(n) => n,
                    Err(msg) => {
                        let mut m = Msg::new("line ");
                        m.dec(ins.line as u64);
                        m.lit(": ");
                        let cs = text::str_chars(msg.as_str());
                        m.chars(cs.as_slice());
                        return Err(m.string());
                    },
                };
                let w = if need > *width {
                    grew = true;
                    need
                } else {
                    *width
                };
                let c = text::copy_range(name.as_slice(), 0, name.len());
                assert(name@.subrange(0, name@.len() as int) == name@);
                Slot::Sym { name: c, width: w }
            },
        };
        proof {
            assert(ns@ == grown_slot(sv, ev, iv));
            assert(target[j as int] == grown_slot(sv, ev, iv));
            assert(slot_views(out@.push(ns)) =~= slot_views(out@).push(ns@));
            assert(target.take(j + 1) =~= target.take(j as int).push(target[j as int]));
        }
        out.push(ns);
        j += 1;
    }
    proof {
        assert(target.take(j as int) =~= target);
        assert forall|q: int| 0 <= q < target.len() implies (#[trigger] target[q] matches SlotV::Sym {
            width,
            ..
        } ==> 1 <= width <= 8) by {
            assert(target[q] == grown_slot(iv.slots[q], ev, iv));
            assert(slot_need(iv.slots[q], ev, iv) is Some);
        }
    }
    Ok((out, grew))
}

/// One widening round over placed instructions.
fn grow(insns: &mut Vec<Insn>, e: &Vec<(Vec<char>, u64)>) -> (r: Result<bool, String>)
    requires
        prog_wf(insn_views(old(insns)@)),
        forall|k: int| 0 <= k < old(insns)@.len() ==> #[trigger] old(insns)@[k].addr < addr_cap(),
        entries_below(entry_views(e@), addr_cap()),
    ensures
        r is Ok <==> forall|k: int|
            0 <= k < old(insns)@.len() ==> insn_ok(
                #[trigger] insn_views(old(insns)@)[k],
                entry_views(e@),
            ),
        r matches Ok(g) ==> g == (exists|k: int|
            0 <= k < old(insns)@.len() && insn_grows(
                #[trigger] insn_views(old(insns)@)[k],
                entry_views(e@),
            )) && insn_views(final(insns)@) == insn_views(old(insns)@).map_values(
            |i: InsnV| grow_insn(i, entry_views(e@)),
        ),
{
    let ghost s = insn_views(insns@);
    let ghost ev = entry_views(e@);
    let mut grew = false;
    let mut k: usize = 0;
    while k < insns.len()
        invariant
            s == insn_views(old(insns)@),
            ev == entry_views(e@),
            prog_wf(s),
            forall|q: int| 0 <= q < s.len() ==> #[trigger] old(insns)@[q].addr < addr_cap(),
            entries_below(ev, addr_cap()),
            insns@.len() == s.len(),
            k <= s.len(),
            forall|q: int| 0 <= q < k ==> #[trigger] insns@[q]@ == grow_insn(s[q], ev),
            forall|q: int| k <= q < s.len() ==> #[trigger] insns@[q]@ == s[q],
            forall|q: int| 0 <= q < k ==> insn_ok(#[trigger] s[q], ev),
            grew == exists|q: int| 0 <= q < k && insn_grows(#[trigger] s[q], ev),
        decreases s.len() - k,
    {
        assert(insns@[k as int]@ == s[k as int]);
        assert(slots_wf(s[k as int].fmt, s[k as int].slots));
        assert(old(insns)@[k as int].addr == s[k as int].addr);
        let (v, g) = match grow_slots(&insns[k], e) {
            Ok(p) => p,
            Err(m) => {
                return Err(m);
            },
        };
        if g {
            grew = true;
        }
        insns[k].slots = v;
        proof {
            assert(insns@[k as int]@ == grow_insn(s[k as int], ev));
        }
        k += 1;
    }
    assert(insn_views(insns@) =~= s.map_values(|i: InsnV| grow_insn(i, ev)));
    Ok(grew)
}

/// Two programs with the same operands and labels, instruction by
/// instruction, lay out alike whatever their recorded addresses.
proof fn lemma_same_layout(x: Seq<InsnV>, y: Seq<InsnV>)
    requires
        x.len() == y.len(),
        forall|k: int|
            0 <= k < x.len() ==> (#[trigger] x[k]).slots == y[k].slots && x[k].labels
                == y[k].labels,
    ensures
        layout_end(x) == layout_end(y),
        label_entries(x) == label_entries(y),
    decreases x.len(),
{
    if x.len() > 0 {
        lemma_same_layout(x.drop_last(), y.drop_last());
        assert(x.last() == x[x.len() - 1]);
        assert(y.last() == y[y.len() - 1]);
    }
}

proof fn lemma_same_prefix_layout(x: Seq<InsnV>, y: Seq<InsnV>, m: int)
    requires
        x.len() == y.len(),
        0 <= m <= x.len(),
        forall|k: int|
            0 <= k < x.len() ==> (#[trigger] x[k]).slots == y[k].slots && x[k].labels
                == y[k].labels,
    ensures
        layout_end(x.take(m)) == layout_end(y.take(m)),
{
    lemma_same_layout(x.take(m), y.take(m));
}

/// A fixed point: every instruction sits where the layout puts it, every
/// reference resolves, and none needs more bytes than it has.
pub open spec fn converged(s: Seq<InsnV>, tr: Seq<Seq<char>>) -> bool {
    &&& s == placed(s)
    &&& !has_dup(label_entries(s))
    &&& forall|k: int|
        0 <= k < s.len() ==> insn_ok(#[trigger] s[k], all_entries(s, tr)) && !insn_grows(
            s[k],
            all_entries(s, tr),
        )
}

proof fn lemma_grow_insn_same(i: InsnV, e: Seq<(Seq<char>, int)>)
    requires
        insn_ok(i, e),
        !insn_grows(i, e),
    ensures
        grow_insn(i, e) == i,
{
    assert forall|j: int| 0 <= j < i.slots.len() implies #[trigger] grown_slot(i.slots[j], e, i)
        == i.slots[j] by {
        if i.slots[j] is Sym {
            assert(slot_need(i.slots[j], e, i) is Some);
        }
    }
    assert(i.slots.map_values(|sl: SlotV| grown_slot(sl, e, i)) =~= i.slots);
}

/// A round that widens nothing leaves the program at a fixed point.
proof fn lemma_round_fixed(s: Seq<InsnV>, tr: Seq<Seq<char>>)
    requires
        round_ok(s, tr),
        !round_grows(s, tr),
    ensures
        grown(s, tr) == placed(s),
        converged(grown(s, tr), tr),
{
    let p = placed(s);
    let e = all_entries(s, tr);
    assert forall|k: int| 0 <= k < s.len() implies #[trigger] grown(s, tr)[k] == p[k] by {
        assert(insn_ok(p[k], e));
        assert(!insn_grows(p[k], e));
        lemma_grow_insn_same(p[k], e);
    }
    assert(grown(s, tr) =~= p);
    lemma_same_layout(p, s);
    assert(all_entries(p, tr) == e);
    assert forall|k: int| 0 <= k < p.len() implies #[trigger] placed(p)[k] == p[k] by {
        lemma_same_prefix_layout(p, s, k);
        assert(s.take(k).len() == k);
    }
    assert(placed(p) =~= p);
    assert forall|k: int| 0 <= k < p.len() implies insn_ok(#[trigger] p[k], all_entries(p, tr))
        && !insn_grows(p[k], all_entries(p, tr)) by {
        assert(insn_ok(p[k], e));
        assert(!insn_grows(p[k], e));
    }
}

/// Relaxation ends, if at all, at a fixed point.
pub proof fn lemma_relax_converged(s: Seq<InsnV>, tr: Seq<Seq<char>>, fuel: nat)
    requires
        relax(s, tr, fuel) is Some,
    ensures
        converged(relax(s, tr, fuel).unwrap(), tr),
    decreases fuel,
{
    if round_grows(s, tr) {
        lemma_relax_converged(grown(s, tr), tr, (fuel - 1) as nat);
    } else {
        lemma_round_fixed(s, tr);
    }
}

/// The instructions of a source text after layout, and the symbol table.
pub open spec fn lower_spec(src: Seq<char>) -> Option<(Seq<InsnV>, Seq<(Seq<char>, int)>)> {
    match parse_spec(src) {
        None => None,
        Some((s, tr)) => match relax(s, tr, (s.len() + 2) as nat) {
            None => None,
            Some(r) => Some((r, all_entries(r, tr))),
        },
    }
}

proof fn lemma_placed_below(s: Seq<InsnV>)
    requires
        prog_wf(s),
        s.len() <= insn_cap(),
    ensures
        forall|k: int| 0 <= k < s.len() ==> 0 <= #[trigger] placed(s)[k].addr < addr_cap(),
        prog_wf(placed(s)),
{
    assert forall|k: int| 0 <= k < s.len() implies 0 <= #[trigger] placed(s)[k].addr
        < addr_cap() by {
        lemma_layout_bound(s, k);
    }
    assert forall|k: int| 0 <= k < s.len() implies slots_wf(
        #[trigger] placed(s)[k].fmt,
        placed(s)[k].slots,
    ) by {
        assert(slots_wf(s[k].fmt, s[k].slots));
    }
}

/// What `lower` hands to the encoder: well-formed instructions and a symbol
/// table with addresses in range.
pub open spec fn lower_spec_shape(s: Seq<InsnV>, e: Seq<(Seq<char>, int)>) -> bool {
    &&& prog_wf(s)
    &&& forall|k: int| 0 <= k < s.len() ==> 0 <= #[trigger] s[k].addr < addr_cap()
    &&& entries_below(e, addr_cap())
}

/// One layout round: place, then widen.
fn one_round(insns: &mut Vec<Insn>, trailing: &Vec<Vec<char>>) -> (r: Result<
    (bool, Vec<(Vec<char>, u64)>),
    String,
>)
    requires
        old(insns)@.len() <= insn_cap(),
        prog_wf(insn_views(old(insns)@)),
    ensures
        r is Ok <==> round_ok(insn_views(old(insns)@), arg_views(trailing@)),
        r matches Ok((g, e)) ==> {
            &&& g == round_grows(insn_views(old(insns)@), arg_views(trailing@))
            &&& insn_views(final(insns)@) == grown(insn_views(old(insns)@), arg_views(trailing@))
            &&& final(insns)@.len() == old(insns)@.len()
            &&& prog_wf(insn_views(final(insns)@))
            &&& !g ==> entry_views(e@) == all_entries(insn_views(final(insns)@), arg_views(trailing@))
            &&& !g ==> lower_spec_shape(insn_views(final(insns)@), entry_views(e@))
        },
{
    let ghost cur = insn_views(insns@);
    let ghost tr = arg_views(trailing@);
    let syms = match place(insns, trailing) {
        Ok(e) => e,
        Err(m) => {
            return Err(m);
        },
    };
    proof {
        lemma_placed_below(cur);
        assert(insn_views(insns@) == placed(cur));
        assert(insn_views(insns@).len() == insns@.len());
        assert forall|k: int| 0 <= k < insns@.len() implies #[trigger] insns@[k].addr
            < addr_cap() by {
            assert(insn_views(insns@)[k] == insns@[k]@);
            assert(0 <= placed(cur)[k].addr < addr_cap());
            assert(insns@[k]@ == placed(cur)[k]);
        }
        lemma_all_entries_below(cur, tr);
    }
    let grew = match grow(insns, &syms) {
        Ok(g) => g,
        Err(m) => {
            return Err(m);
        },
    };
    proof {
        assert(insn_views(insns@) == grown(cur, tr));
        assert forall|k: int| 0 <= k < cur.len() implies slots_wf(
            #[trigger] grown(cur, tr)[k].fmt,
            grown(cur, tr)[k].slots,
        ) by {
            lemma_grow_wf(placed(cur)[k], all_entries(cur, tr));
        }
        if !grew {
            lemma_round_fixed(cur, tr);
            lemma_same_layout(placed(cur), cur);
            lemma_all_entries_below(insn_views(insns@), tr);
        }
    }
    Ok((grew, syms))
}

/// Parse every line, then relax label widths to a fixed point so that every
/// address is known. Fails on a parse error, a label defined twice, an
/// unknown label, a reference that does not fit, or a layout that does not
/// settle within `n + 2` rounds. The message of a parse error is stated;
/// those of the later errors are not.
pub fn lower(src: &[char]) -> (r: Result<(Vec<Insn>, Vec<(Vec<char>, u64)>), String>)
    requires
        src@.len() <= i32::MAX,
    ensures
        r is Ok <==> lower_spec(src@) is Some,
        r matches Ok((v, e)) ==> insn_views(v@) == lower_spec(src@).unwrap().0 && entry_views(e@)
            == lower_spec(src@).unwrap().1 && lower_spec_shape(insn_views(v@), entry_views(e@)),
        parse_spec(src@) is None ==> (r matches Err(e) && e@ == parse_msg(src@)),
{
    let (mut insns, trailing) = parse_lines(src)?;
    let ghost s0 = insn_views(insns@);
    let ghost tr = arg_views(trailing@);
    let fuel = insns.len() + 2;
    let mut round: usize = 0;
    while round < fuel
        invariant
            parse_spec(src@) == Some((s0, tr)),
            tr == arg_views(trailing@),
            fuel == s0.len() + 2,
            round <= fuel,
            insns@.len() == s0.len(),
            s0.len() <= insn_cap(),
            prog_wf(insn_views(insns@)),
            relax(s0, tr, fuel as nat) == relax(insn_views(insns@), tr, (fuel - round) as nat),
        decreases fuel - round,
    {
        let (grew, syms) = one_round(&mut insns, &trailing)?;
        if !grew {
            return Ok((insns, syms));
        }
        round += 1;
    }
    Err(text::string_of(text::str_chars("label layout failed to converge").as_slice()))
}

proof fn lemma_grow_wf(i: InsnV, e: Seq<(Seq<char>, int)>)
    requires
        slots_wf(i.fmt, i.slots),
        insn_ok(i, e),
    ensures
        slots_wf(grow_insn(i, e).fmt, grow_insn(i, e).slots),
{
    let g = grow_insn(i, e);
    assert forall|j: int| 0 <= j < g.slots.len() implies (#[trigger] g.slots[j] matches SlotV::Sym {
        width,
        ..
    } ==> 1 <= width <= 8) by {
        assert(slot_need(i.slots[j], e, i) is Some);
    }
}

proof fn lemma_label_entries_below(s: Seq<InsnV>)
    requires
        prog_wf(s),
        s.len() <= insn_cap(),
    ensures
        entries_below(label_entries(s), addr_cap()),
    decreases s.len(),
{
    if s.len() > 0 {
        let d = s.drop_last();
        assert forall|k: int| 0 <= k < d.len() implies slots_wf(#[trigger] d[k].fmt, d[k].slots) by {
            assert(d[k] == s[k]);
        }
        lemma_label_entries_below(d);
        lemma_layout_bound(d, d.len() as int);
        assert(d.take(d.len() as int) == d);
    }
}

proof fn lemma_all_entries_below(s: Seq<InsnV>, tr: Seq<Seq<char>>)
    requires
        prog_wf(s),
        s.len() <= insn_cap(),
    ensures
        entries_below(all_entries(s, tr), addr_cap()),
{
    lemma_label_entries_below(s);
    lemma_layout_bound(s, s.len() as int);
    assert(s.take(s.len() as int) == s);
}

/// A lookup that succeeds gives one of the table's addresses.
pub proof fn lemma_lookup_in(e: Seq<(Seq<char>, int)>, name: Seq<char>)
    requires
        entries_below(e, addr_cap()),
    ensures
        lookup(e, name) matches Some(a) ==> 0 <= a < addr_cap(),
{
    lemma_lookup_below(e, name, addr_cap());
}

/// What `lower_spec` produces has the shape the encoder needs.
pub proof fn lemma_lower_shape(src: Seq<char>)
    requires
        src.len() <= i32::MAX,
        lower_spec(src) is Some,
    ensures
        lower_spec_shape(lower_spec(src).unwrap().0, lower_spec(src).unwrap().1),
{
    let (s, tr) = parse_spec(src).unwrap();
    crate::vea_sim::assembler::parse::lemma_parse_shape(src);
    lemma_relax_shape(s, tr, (s.len() + 2) as nat);
}

proof fn lemma_relax_shape(s: Seq<InsnV>, tr: Seq<Seq<char>>, fuel: nat)
    requires
        relax(s, tr, fuel) is Some,
        prog_wf(s),
        s.len() <= insn_cap(),
    ensures
        lower_spec_shape(relax(s, tr, fuel).unwrap(), all_entries(relax(s, tr, fuel).unwrap(), tr)),
    decreases fuel,
{
    lemma_placed_below(s);
    let g = grown(s, tr);
    assert forall|k: int| 0 <= k < s.len() implies slots_wf(#[trigger] g[k].fmt, g[k].slots) by {
        lemma_grow_wf(placed(s)[k], all_entries(s, tr));
    }
    if round_grows(s, tr) {
        lemma_relax_shape(g, tr, (fuel - 1) as nat);
    } else {
        lemma_round_fixed(s, tr);
        assert(g == placed(s));
        lemma_all_entries_below(g, tr);
    }
}

} // verus!
