//! The command-line subcommands' own logic: address arguments, and the
//! conformance run that reports a program's final registers.
use crate::text;
use crate::vea_sim::assembler::{self, assemble_spec, image_of};
use crate::vea_sim::error::Msg;
use crate::vea_sim::isa::NUM_REGS;
use crate::vea_sim::memory::{in_space, page_of, MemGuard};
use crate::vea_sim::onestep::{
    lemma_running_until_end, lemma_runs_agree, lemma_step_same, runs, same_memory, step_fault_msg, step_spec,
    trace_ok, OneV, Processor,
};
use crate::vea_sim::shared::Shared;
use crate::vea_sim::assembler::parse::{parse_msg, parse_spec};
use vstd::prelude::*;

verus! {

/// An address argument: decimal, or hex after `0x` / `0X`, with surrounding
/// whitespace ignored.
pub open spec fn addr_spec(s: Seq<char>) -> Option<u64> {
    let t = text::trim(s);
    let hex = text::has_prefix(t, seq!['0', 'x']) || text::has_prefix(t, seq!['0', 'X']);
    let d = if hex {
        t.skip(2)
    } else {
        t
    };
    let radix: nat = if hex {
        16
    } else {
        10
    };
    if d.len() > 0 && d[0] == '-' {
        None
    } else {
        match text::parse_radix_spec(d, radix, -0x1_0000_0000_0000_0001, u64::MAX as int) {
            Some(v) => Some(v as u64),
            None => None,
        }
    }
}

/// Accept both `4096` and `0x1000` for address-style arguments.
pub fn parse_addr(s: &str) -> (r: Result<u64, String>)
    ensures
        match addr_spec(s@) {
            Some(v) => r == Ok::<u64, String>(v),
            None => r matches Err(e) && e@ == "not a valid address: "@ + s@,
        },
{
    let cs = text::str_chars(s);
    let t = text::trim_slice(cs.as_slice());
    let lx: [char; 2] = ['0', 'x'];
    let ux: [char; 2] = ['0', 'X'];
    assert(lx@ == seq!['0', 'x'] && ux@ == seq!['0', 'X']);
    let hex = text::starts_with(t, &lx) || text::starts_with(t, &ux);
    let d = if hex {
        vstd::slice::slice_subrange(t, 2, t.len())
    } else {
        t
    };
    assert(hex ==> d@ =~= text::trim(s@).skip(2));
    let radix: u32 = if hex {
        16
    } else {
        10
    };
    let parsed = if d.len() > 0 && d[0] == '-' {
        None
    } else {
        match text::parse_radix(d, radix, 0x1_0000_0000_0000_0001, 0xFFFF_FFFF_FFFF_FFFF) {
            Some(v) => Some(v as u64),
            None => None,
        }
    };
    match parsed {
        Some(v) => Ok(v),
        None => {
            let mut m = Msg::new("not a valid address: ");
            m.chars(cs.as_slice());
            Err(m.string())
        },
    }
}

/// The register file as `$readmemh` text: one 16-digit hex value per line,
/// r0 first.
pub open spec fn reg_dump(regs: Seq<u64>) -> Seq<char>
    decreases regs.len(),
{
    if regs.len() == 0 {
        Seq::empty()
    } else {
        reg_dump(regs.drop_last()) + text::zero_pad(text::digits(regs.last() as nat, 16), 16) + seq!['\n']
    }
}

/// A machine just reset.
pub open spec fn reset_state(s: OneV) -> bool {
    &&& s.pc == 0 && s.completed_instrs == 0 && !s.halted
    &&& s.regs == Seq::new(NUM_REGS as nat, |i: int| 0u64)
    &&& !s.z && !s.n && !s.c && !s.v
}

/// `m1` is `m0` with `image` written at address 0, and the pages it covers
/// mapped.
pub open spec fn loaded_at_zero(m0: MemGuard, m1: MemGuard, image: Seq<u8>) -> bool {
    &&& m1.wf()
    &&& forall|a: int|
        0 <= a <= u64::MAX ==> #[trigger] m1.byte(a) == if a < image.len() {
            image[a]
        } else {
            m0.byte(a)
        }
    &&& forall|a: int|
        0 <= a <= u64::MAX ==> #[trigger] m1.mapped(a) == (m0.mapped(a) || (image.len() > 0
            && page_of(a) <= page_of(image.len() - 1)))
}

/// From reset, with `image` loaded at address 0 over `m`, the
/// instruction-level simulator halts within `cap` instructions.
pub open spec fn halts_within(m: MemGuard, image: Seq<u8>, cap: nat) -> bool {
    exists|m0: MemGuard, s0: OneV, s1: OneV, m1: MemGuard, k: nat|
        #![trigger runs(s0, m0, s1, m1, k)]
        {
            &&& loaded_at_zero(m, m0, image)
            &&& reset_state(s0)
            &&& runs(s0, m0, s1, m1, k)
            &&& k <= cap && s1.halted
        }
}

fn dump_regs(regs: &[u64; NUM_REGS]) -> (out: String)
    ensures
        out@ == reg_dump(regs@),
{
    let mut out = String::new();
    let mut i: usize = 0;
    while i < NUM_REGS
        invariant
            i <= NUM_REGS,
            regs@.len() == NUM_REGS,
            out@ == reg_dump(regs@.take(i as int)),
        decreases NUM_REGS - i,
    {
        let d = text::fmt_radix(regs[i], 16, 16);
        text::push_chars(&mut out, d.as_slice());
        text::push_char(&mut out, '\n');
        proof {
            assert(regs@.take(i + 1).drop_last() =~= regs@.take(i as int));
        }
        i += 1;
    }
    assert(regs@.take(NUM_REGS as int) =~= regs@);
    out
}

/// A run from reset over the loaded image that stops short of a halt, at
/// the cap or at a step that faults, shows the program does not halt
/// within the cap: the run it would have taken is this one.
proof fn lemma_stuck_means_no_halt(
    m: MemGuard,
    image: Seq<u8>,
    cap: nat,
    s0: OneV,
    m0: MemGuard,
    s: OneV,
    ms: MemGuard,
    k: nat,
)
    requires
        loaded_at_zero(m, m0, image),
        reset_state(s0),
        runs(s0, m0, s, ms, k),
        !s.halted,
        k <= cap,
        k == cap || step_spec(s, ms) is None,
    ensures
        !halts_within(m, image, cap),
{
    if halts_within(m, image, cap) {
        let (n0, r0, r1, n1, j) = choose|n0: MemGuard, r0: OneV, r1: OneV, n1: MemGuard, j: nat|
            #![trigger runs(r0, n0, r1, n1, j)]
            {
                &&& loaded_at_zero(m, n0, image)
                &&& reset_state(r0)
                &&& runs(r0, n0, r1, n1, j)
                &&& j <= cap && r1.halted
            };
        let t1 = choose|t: Seq<(OneV, MemGuard)>| #[trigger] trace_ok(t, k) && t[0] == (s0, m0) && t[k as int] == (s, ms);
        let t2 = choose|t: Seq<(OneV, MemGuard)>| #[trigger] trace_ok(t, j) && t[0] == (r0, n0) && t[j as int] == (r1, n1);
        assert(r0.regs =~= s0.regs);
        assert(r0 == s0);
        assert(same_memory(m0, n0));
        if j <= k {
            lemma_runs_agree(t1, k, t2, j, j);
            if j < k {
                lemma_running_until_end(t1, k, j as int);
            }
        } else {
            lemma_runs_agree(t1, k, t2, j, k);
            assert(step_spec(t2[k as int].0, t2[k as int].1) is Some);
            lemma_step_same(s, ms, ms, t2[k as int].1, t2[k as int].1);
        }
    }
}

/// Assemble `src`, load it at address 0, run it on the instruction-level
/// simulator for at most `cap` instructions, and report the final registers.
/// Fails with the assembler's or the simulator's message, or when the
/// program has not halted within `cap` instructions.
/// A program that assembles and fits the address space fails only from a
/// run that has not halted: one that faults on its next step, with the
/// step's message where that is stated, or one of `cap` steps.
pub fn conform(src: &str, cap: u64, mem: &mut MemGuard, shared: &mut Shared) -> (r: Result<String, String>)
    requires
        src@.len() <= i32::MAX,
        old(mem).wf(),
    ensures
        final(mem).wf(),
        parse_spec(src@) is None ==> (r matches Err(e) && e@ == parse_msg(src@)),
        r matches Err(e) ==> (assemble_spec(src@) is Some && in_space(
            0,
            image_of(assemble_spec(src@).unwrap().1).len() as int,
        ) ==> exists|s0: OneV, m0: MemGuard, s1: OneV, m1: MemGuard, k: nat|
            #![trigger runs(s0, m0, s1, m1, k)]
            {
                &&& reset_state(s0)
                &&& loaded_at_zero(*old(mem), m0, image_of(assemble_spec(src@).unwrap().1))
                &&& runs(s0, m0, s1, m1, k)
                &&& k <= cap && !s1.halted
                &&& k == cap ==> e@ == "did not halt within "@ + text::digits(cap as nat, 10) + " instructions"@
                &&& k < cap ==> step_spec(s1, m1) is None && (step_fault_msg(s1, m1) matches Some(t) ==> e@ == t)
            }),
        r is Ok <==> assemble_spec(src@) is Some && in_space(
            0,
            image_of(assemble_spec(src@).unwrap().1).len() as int,
        ) && halts_within(*old(mem), image_of(assemble_spec(src@).unwrap().1), cap as nat),
        r matches Ok(out) ==> exists|s0: OneV, m0: MemGuard, s1: OneV, m1: MemGuard, k: nat|
            #![trigger runs(s0, m0, s1, m1, k)]
            {
                &&& reset_state(s0)
                &&& loaded_at_zero(*old(mem), m0, image_of(assemble_spec(src@).unwrap().1))
                &&& runs(s0, m0, s1, m1, k)
                &&& k <= cap && s1.halted
                &&& out@ == reg_dump(s1.regs)
            },
{
    let image = match assembler::assemble_listing(src) {
        Ok((image, _rows)) => image,
        Err(e) => {
            return Err(e);
        },
    };
    let ghost before = *mem;
    match mem.load(0, image.as_slice()) {
        Ok(()) => {},
        Err(e) => {
            return Err(e.to_string());
        },
    }
    let ghost m0 = *mem;
    let mut cpu = Processor::new();
    let ghost s0 = cpu@;
    proof {
        assert(loaded_at_zero(before, m0, image@));
    }
    let run = cpu.cycle(mem, shared, cap);
    if let Err(e) = run {
        proof {
            let k = choose|k: nat|
                k < cap && #[trigger] runs(s0, m0, cpu@, *mem, k) && !cpu.halted && step_spec(cpu@, *mem) is None;
            lemma_stuck_means_no_halt(before, image@, cap as nat, s0, m0, cpu@, *mem, k);
            assert(runs(s0, m0, cpu@, *mem, k));
        }
        return Err(e.to_string());
    }
    if !cpu.halted() {
        proof {
            let k = choose|k: nat| k <= cap && #[trigger] runs(s0, m0, cpu@, *mem, k) && (k == cap || cpu.halted);
            lemma_stuck_means_no_halt(before, image@, cap as nat, s0, m0, cpu@, *mem, k);
        }
        let mut m = Msg::new("did not halt within ");
        m.dec(cap);
        m.lit(" instructions");
        proof {
            let k = choose|k: nat| k <= cap && #[trigger] runs(s0, m0, cpu@, *mem, k) && (k == cap || cpu.halted);
            assert(runs(s0, m0, cpu@, *mem, k));
        }
        return Err(m.string());
    }
    let out = dump_regs(&cpu.regs);
    proof {
        assert(loaded_at_zero(before, m0, image@));
        let k = choose|k: nat| k <= cap && #[trigger] runs(s0, m0, cpu@, *mem, k) && (k == cap || cpu.halted);
        assert(runs(s0, m0, cpu@, *mem, k));
    }
    Ok(out)
}

} // verus!
