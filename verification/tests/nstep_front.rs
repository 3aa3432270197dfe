use vea::vea_sim::assembler::{assemble_listing, assemble_raw};
use vea::vea_sim::isa::{align_up, ConditionCodes, ICACHE_SIZE, MAX_INSN_BYTES};
use vea::vea_sim::memory::MemGuard;
use vea::vea_sim::nstep::icache::ICache;
use vea::vea_sim::nstep::{frame_len, Processor};

fn load(src: &str) -> (Processor, MemGuard) {
    let (image, _) = assemble_listing(src).expect("assembles");
    let mut mem = MemGuard::new();
    mem.load(0, &image).expect("loads");
    (Processor::new(), mem)
}

#[test]
fn fetch_delivers_the_frame_in_one_call() {
    let (mut p, mem) = load("nop\nnop\nhalt\n");

    p.fetch(&mem).unwrap();
    let f = p.if_id.take().expect("frame delivered");
    assert_eq!(f.pc, 0);
    assert_eq!(f.bytes[0], 0x00, "opcode byte of nop");
    assert_eq!(p.pc, 4, "past the 2-byte frame, aligned to 4");
}

#[test]
fn walks_frames_by_their_own_length() {
    let (mut p, mem) = load("mov r1, #5\nadd r2, r1, r1\nhalt\n");

    let mut seen = Vec::new();
    for _ in 0..3 {
        p.fetch(&mem).unwrap();
        seen.push(p.if_id.take().expect("frame delivered").pc);
    }
    // mov r1,#5 -> 4 bytes; add r2,r1,r1 -> 5 bytes, aligned up to 12.
    assert_eq!(seen, vec![0, 4, 12]);
}

#[test]
fn unmapped_fetch_faults() {
    let mem = MemGuard::new();
    let mut p = Processor::new();
    p.pc = 0x4000;
    assert!(p.fetch(&mem).is_err());
}

#[test]
fn hit_after_first_fill_then_slide_near_the_end() {
    let (image, _) = assemble_listing("nop\n".repeat(200).as_str()).unwrap();
    let mut mem = MemGuard::new();
    mem.load(0, &image).unwrap();

    let mut ic = ICache::new();

    // Cold: slides to 0, charges the penalty.
    let (_, stall) = ic.fill(&mem, 0, 3);
    assert_eq!(stall, 3);
    assert_eq!(ic.base, 0);

    // Anything still inside [0, ICACHE_SIZE) is free.
    let (_, stall) = ic.fill(&mem, 4, 3);
    assert_eq!(stall, 0);

    // A PC close enough to the end that a full frame would overflow forces
    // another slide.
    let near_end = (ICACHE_SIZE - MAX_INSN_BYTES + 1) as u64;
    let near_end = near_end - near_end % 4;
    let (_, stall) = ic.fill(&mem, near_end, 3);
    assert_eq!(stall, 3);
    assert_eq!(ic.base, near_end);
}

#[test]
fn flush_forces_a_refill() {
    let mut mem = MemGuard::new();
    mem.load(0, &[0u8; 64]).unwrap();

    let mut ic = ICache::new();
    assert_eq!(ic.fill(&mem, 0, 3).1, 3);
    assert_eq!(ic.fill(&mem, 0, 3).1, 0);
    ic.flush();
    assert_eq!(ic.fill(&mem, 0, 3).1, 3);
}

// frame_len must agree with the byte count the assembler actually emits.
fn check(src: &str) {
    let raw = assemble_raw(src).expect("assembles");
    assert_eq!(raw.len(), 1);
    let mut frame = [0u8; MAX_INSN_BYTES];
    frame[..raw[0].len()].copy_from_slice(&raw[0]);
    assert_eq!(frame_len(&frame).unwrap() as usize, raw[0].len(), "for `{src}`");
}

#[test]
fn frame_len_matches_the_assembler() {
    for src in [
        "nop",
        "halt",
        "mov r1, #5",
        "mov r1, r2",
        "mov r1, 0x1122334455667788",
        "not r3, r4",
        "add r2, r1, r1",
        "add r2, r1, #7",
        "cmp r1, r2",
        "cmp.s r1, #-3",
        "div r5, r6, r7",
        "ld r5, [r6]",
        "ld.w r1, [r2 + 0x10]",
        "st [r8 - #8], r9",
        "b 0x08",
        "jmp 0x2000",
    ] {
        check(src);
    }
}

#[test]
fn align_up_rounds_to_the_next_multiple_up_to_the_top_of_the_range() {
    assert_eq!(align_up(5, 4), 8);
    assert_eq!(align_up(8, 4), 8);
    assert_eq!(align_up(0, 4), 0);
    assert_eq!(align_up(u64::MAX, 1), u64::MAX);
    assert_eq!(align_up(u64::MAX - 3, 4), u64::MAX - 3);
}

#[test]
fn a_condition_code_mask_with_undefined_bits_is_refused_in_binary() {
    let e = ConditionCodes::new(0x1F).err().unwrap();
    assert_eq!(e.to_string(), "condition code mask 0b11111 has undefined bits set");
    let cc = ConditionCodes::new(0b1010).ok().unwrap();
    assert!(cc.zero() && !cc.neg() && cc.carry() && !cc.overflow());
}
