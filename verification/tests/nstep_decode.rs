use vea::vea_sim::assembler::assemble_listing;
use vea::vea_sim::isa::ConditionCodes;
use vea::vea_sim::memory::MemGuard;
use vea::vea_sim::nstep::{DecodedOp, Processor};

fn load(src: &str) -> (Processor, MemGuard) {
    let (image, _) = assemble_listing(src).expect("assembles");
    let mut mem = MemGuard::new();
    mem.load(0, &image).expect("loads");
    (Processor::new(), mem)
}

// Fetch then decode - one call, one instruction pushed into ID/EX.
fn step(p: &mut Processor, mem: &MemGuard) -> DecodedOp {
    p.fetch(mem).unwrap();
    p.decode().unwrap();
    p.id_ex.take().expect("frame decoded").op
}

#[test]
fn nop_and_halt_carry_no_operands() {
    let (mut p, mem) = load("nop\nhalt\n");
    assert_eq!(step(&mut p, &mem), DecodedOp::Nop);
    assert_eq!(step(&mut p, &mem), DecodedOp::Halt);
}

#[test]
fn mov_reads_a_register_or_an_immediate() {
    let (mut p, mem) = load("mov r1, #5\nmov r2, r1\n");
    assert_eq!(step(&mut p, &mem), DecodedOp::Mov { rd: 1, src: 5 });
    p.regs[1] = 5;
    assert_eq!(step(&mut p, &mem), DecodedOp::Mov { rd: 2, src: 5 });
}

#[test]
fn not_hands_execute_the_source_unnegated() {
    let (mut p, mem) = load("not r3, r4\n");
    p.regs[4] = 0x0F;
    assert_eq!(step(&mut p, &mem), DecodedOp::Not { rd: 3, src: 0x0F });
}

#[test]
fn cmp_signedness_follows_the_mnemonic() {
    let (mut p, mem) = load("cmp r1, r2\ncmp.s r1, #-3\n");
    p.regs[1] = 5;
    p.regs[2] = 9;
    assert_eq!(step(&mut p, &mem), DecodedOp::Cmp { a: 5, b: 9, signed: false });
    assert_eq!(step(&mut p, &mem), DecodedOp::Cmp { a: 5, b: -3, signed: true });
}

#[test]
fn alu_ops_read_both_operands_and_keep_the_op_nibble() {
    let (mut p, mem) = load("add r2, r1, r1\nsub r1, r1, #1\ndiv r5, r6, r7\n");
    p.regs[1] = 5;
    p.regs[6] = 20;
    p.regs[7] = 4;
    assert_eq!(step(&mut p, &mem), DecodedOp::Alu { rd: 2, nibble: 0x0, a: 5, b: 5 });
    assert_eq!(step(&mut p, &mem), DecodedOp::Alu { rd: 1, nibble: 0x1, a: 5, b: 1 });
    assert_eq!(step(&mut p, &mem), DecodedOp::Alu { rd: 5, nibble: 0xA, a: 20, b: 4 });
}

#[test]
fn loads_and_stores_resolve_the_effective_address() {
    let (mut p, mem) = load(
        "ld r5, [r6]\nld.w r1, [r2 + 0x10]\nld.sb r3, [r4]\nst [r8 - #8], r9\n",
    );
    p.regs[6] = 0x100;
    p.regs[2] = 0x200;
    p.regs[4] = 0x300;
    p.regs[8] = 0x400;
    p.regs[9] = 0xAB;
    assert_eq!(step(&mut p, &mem), DecodedOp::Load { rd: 5, addr: 0x100, width: 8, sext: false });
    assert_eq!(step(&mut p, &mem), DecodedOp::Load { rd: 1, addr: 0x210, width: 4, sext: false });
    assert_eq!(step(&mut p, &mem), DecodedOp::Load { rd: 3, addr: 0x300, width: 1, sext: true });
    // base - 8, so the address math has to actually be signed
    assert_eq!(step(&mut p, &mem), DecodedOp::Store { addr: 0x3F8, width: 8, value: 0xAB });
}

#[test]
fn load_indexed_by_a_register_reads_it_at_decode_time() {
    let (mut p, mem) = load("ld r5, [r6 + r7]\n");
    p.regs[6] = 0x100;
    p.regs[7] = 0x20;
    assert_eq!(step(&mut p, &mem), DecodedOp::Load { rd: 5, addr: 0x120, width: 8, sext: false });
}

#[test]
fn conditional_branch_resolves_taken_from_the_flags() {
    
    let (mut p, mem) = load("beq 0x08\n");
    assert_eq!(step(&mut p, &mem), DecodedOp::Branch { taken: false, target: 8 });

    let (mut p, mem) = load("beq 0x08\n");
    p.cc = ConditionCodes::new(ConditionCodes::ZERO_MASK).unwrap();
    assert_eq!(step(&mut p, &mem), DecodedOp::Branch { taken: true, target: 8 });
}

#[test]
fn branch_offset_walks_backward_past_its_own_pc() {
    let (mut p, mem) = load("loop: sub r1, r1, #1\nb loop\n");
    step(&mut p, &mem); // sub, at address 0
    assert_eq!(step(&mut p, &mem), DecodedOp::Branch { taken: true, target: 0 });
}

#[test]
fn branch_to_a_register_is_always_absolute() {
    let (mut p, mem) = load("b r1\n");
    p.regs[1] = 0xCAFE_BABE_DEAD_BEEF;
    assert_eq!(step(&mut p, &mem), DecodedOp::Branch { taken: true, target: 0xCAFE_BABE_DEAD_BEEF });
}

#[test]
fn jmp_is_unconditional_and_absolute() {
    let (mut p, mem) = load("jmp 0x2000\n");
    assert_eq!(step(&mut p, &mem), DecodedOp::Branch { taken: true, target: 0x2000 });
}

#[test]
fn no_frame_means_no_decode() {
    let (mut p, _mem) = load("halt\n");
    p.decode().unwrap();
    assert!(p.id_ex.is_none(), "nothing was in IF/ID to decode");
}
