// Whole-program regression for the pipelined simulator, cross-checked
// against the instruction-level one: given enough cycles the two must land
// on exactly the same architectural state.

use vea::vea_sim::assembler::assemble_listing;
use vea::vea_sim::memory::MemGuard;
use vea::vea_sim::shared::{Shared, Snapshot};
use vea::vea_sim::{nstep, onestep};

const CAP: u64 = 200_000;

fn loaded(source: &str) -> MemGuard {
    let (image, _) = assemble_listing(source).expect("assembles");
    let mut mem = MemGuard::new();
    mem.load(0, &image).expect("loads");
    mem
}

fn run_onestep(source: &str) -> (Snapshot, Vec<u8>) {
    let mut mem = loaded(source);
    let mut sh = Shared::new();
    let mut cpu = onestep::Processor::new();
    let mut steps = 0u64;
    while !cpu.halted() && steps < CAP {
        cpu.cycle(&mut mem, &mut sh, 1).expect("onestep executes without a fault");
        steps += 1;
    }
    assert!(cpu.halted(), "onestep did not halt within {CAP} instructions");
    (sh.snapshot.clone(), mem.dump(0x4000, 0x100))
}

fn run_nstep(source: &str) -> (Snapshot, Vec<u8>) {
    let mut mem = loaded(source);
    let mut sh = Shared::new();
    let mut cpu = nstep::Processor::new();
    let mut steps = 0u64;
    while !cpu.halted() && steps < CAP {
        cpu.cycle(&mut mem, &mut sh, 1).expect("nstep executes without a fault");
        steps += 1;
    }
    assert!(cpu.halted(), "nstep did not halt within {CAP} cycles");
    (sh.snapshot.clone(), mem.dump(0x4000, 0x100))
}

// Run the same source on both simulators and demand identical final state.
fn cross_check(name: &str, source: &str) -> Snapshot {
    let (one, one_mem) = run_onestep(source);
    let (n, n_mem) = run_nstep(source);

    assert_eq!(n.regs, one.regs, "{name}: register file mismatch");
    assert_eq!(n.pc, one.pc, "{name}: final pc mismatch");
    assert_eq!(n.completed_instrs, one.completed_instrs, "{name}: retired-instruction count mismatch");
    assert_eq!(
        (n.flags.z, n.flags.n, n.flags.c, n.flags.v),
        (one.flags.z, one.flags.n, one.flags.c, one.flags.v),
        "{name}: flags mismatch"
    );
    assert_eq!(n_mem, one_mem, "{name}: data memory mismatch");
    one
}

const BITOPS: &str = "
    mov r1, 0xF0F0
    mov r2, 0x0FF0
    and r3, r1, r2
    or r4, r1, r2
    xor r5, r1, r2
    not r6, r1
    shl r7, r1, #4
    shr r8, r1, #4
    mov r9, #-16
    sar r10, r9, #2
    shr r11, r9, #60
    and r12, r1, 0xff
    or r13, r2, #1
    xor r14, r1, r1
    halt
";

const BRANCH_PREDICATES: &str = "
    mov r1, #0
    mov r2, #5
    mov r3, #7
    cmp r2, r3
    blt a
    add r1, r1, #1
a:  cmp r3, r2
    bgt b
    add r1, r1, #2
b:  cmp r2, r2
    beq c
    add r1, r1, #4
c:  bne d
    add r1, r1, #8
d:  cmp.s r2, #-1
    bge e
    add r1, r1, #16
e:  cmp.s r3, r3
    ble f
    add r1, r1, #32
f:  cmp r2, r3
    bge g
    add r1, r1, #64
g:  mov r4, h
    cmp r2, r2
    beq r4
    add r1, r1, #128
h:  b i
    add r1, r1, #256
i:  halt
";

const BUBBLE_SORT: &str = "
    mov r10, 0x4000
    mov r1, #5
    st [r10], r1
    mov r1, #3
    st [r10 + #8], r1
    mov r1, #9
    st [r10 + #16], r1
    mov r1, #-2
    st [r10 + #24], r1
    mov r1, #7
    st [r10 + #32], r1
    mov r11, #5
outer:
    mov r12, #0
    mov r13, #1
inner:
    cmp r13, r11
    bge pass_done
    shl r14, r13, #3
    add r14, r14, r10
    ld r1, [r14 - #8]
    ld r2, [r14]
    cmp.s r1, r2
    ble in_order
    st [r14 - #8], r2
    st [r14], r1
    mov r12, #1
in_order:
    add r13, r13, #1
    b inner
pass_done:
    cmp r12, #0
    bne outer
    ld r1, [r10]
    ld r2, [r10 + #8]
    ld r3, [r10 + #16]
    ld r4, [r10 + #24]
    ld r5, [r10 + #32]
    halt
";

const FACTORIAL: &str = "
    mov r1, #10
    mov r2, #1
loop:
    cmp r1, #0
    beq done
    mul r2, r2, r1
    sub r1, r1, #1
    b loop
done:
    halt
";

const FIBONACCI: &str = "
    mov r1, #0
    mov r2, #1
    mov r4, #30
loop:
    add r3, r1, r2
    mov r1, r2
    mov r2, r3
    sub r4, r4, #1
    cmp r4, #0
    bne loop
    halt
";

const MEM_STRESS: &str = "
    mov r10, 0x4000
    mov r1, 0x7899AABBCCDDEEFF
    st [r10], r1
    st.w [r10 + #8], r1
    st.h [r10 + #12], r1
    st.b [r10 + #14], r1
    ld r2, [r10]
    ld.w r3, [r10]
    ld.sw r4, [r10]
    ld.h r5, [r10 + #2]
    ld.sh r6, [r10 + #2]
    ld.b r7, [r10 + #1]
    ld.sb r8, [r10 + #1]
    ld.w r9, [r10 + #8]
    mov r11, #12
    ld.h r12, [r10 + r11]
    mov r11, #14
    ld.sb r13, [r10 + r11]
    st.b [r10 + r11], r11
    ld.b r14, [r10 + #14]
    halt
";

const MEMCPY: &str = "
    mov r10, 0x4000
    mov r11, 0x4080
    mov r1, 0x0102030405060708
    st [r10], r1
    mov r1, 0x1112131415161718
    st [r10 + #8], r1
    mov r2, #0
copy:
    ld.b r3, [r10 + r2]
    st.b [r11 + r2], r3
    add r2, r2, #1
    cmp r2, #16
    bne copy
    ld r4, [r11]
    ld r5, [r11 + #8]
    halt
";

const RUN_ALL_INSTRS_ALL_MODES: &str = "
    nop
    mov r1, #40
    mov r2, r1
    mov r3, 0x1234
    mov r5, #-1
    add r4, r1, r2
    add r4, r4, #5
    sub r6, r4, r1
    sub r6, r6, #1
    and r7, r3, r1
    and r7, r7, 0xff
    or r8, r3, r1
    or r8, r8, #3
    xor r9, r3, r5
    xor r9, r9, 0x0f
    shl r10, r1, r2
    shl r10, r1, #2
    shr r11, r5, #4
    sar r12, r5, #4
    mul r13, r1, r2
    mul r13, r13, #3
    div r14, r13, r1
    div r14, r14, #2
    not r15, r1
    cmp r1, r2
    cmp r1, #0
    cmp.s r5, r1
    cmp.s r5, #-1
    b j1
j1: mov r20, j2
    b r20
j2: cmp r1, r1
    beq j3
j3: bne j3
    blt j3
    bgt j3
    mov r21, j4
    bge r21
j4: ble j5
j5: mov r22, j6
    jmp r22
j6: jmp j7
j7: mov r16, 0x4000
    st [r16], r3
    st.w [r16 + #8], r3
    st.h [r16 + #12], r3
    st.b [r16 + #14], r3
    mov r17, #16
    st [r16 + r17], r5
    st.b [r16 - #1], r1
    ld r18, [r16]
    ld.w r18, [r16 + #8]
    ld.h r18, [r16 + #12]
    ld.b r18, [r16 + #14]
    ld.sw r19, [r16 + r17]
    ld.sh r19, [r16 + r17]
    ld.sb r19, [r16 + r17]
    ld r19, [r16 + r17]
    halt
";

const SAMPLE_BASICS: &str = "
start:
    mov r1, #1
    mov r2, #2
    add r3, r1, r2
    sub r4, r3, #1
    mov r5, 0x4000
    st [r5], r3
    ld r6, [r5]
    cmp r6, r3
    bne start
    halt
";

const SIGNED_VS_UNSIGNED: &str = "
    mov r1, #-1
    mov r2, #1
    mov r10, #0
    cmp r1, r2
    blt s1
    add r10, r10, #1
s1: cmp.s r1, r2
    blt s2
    add r10, r10, #2
s2: cmp r2, r1
    bgt s3
    add r10, r10, #4
s3: cmp.s r2, r1
    bgt s4
    add r10, r10, #8
s4: mov r11, 0x4000
    mov r3, 0xF0
    st.b [r11], r3
    ld.b r4, [r11]
    ld.sb r5, [r11]
    mov r3, 0x8000
    st.h [r11 + #2], r3
    ld.h r6, [r11 + #2]
    ld.sh r7, [r11 + #2]
    sar r8, r1, #8
    shr r9, r1, #8
    halt
";

const STRLEN: &str = "
    mov r10, 0x4000
    mov r1, 0x68656C6C6F2C2077
    st [r10], r1
    mov r1, 0x6F726C6421000000
    st [r10 + #8], r1
    mov r2, #0
scan:
    ld.b r3, [r10 + r2]
    cmp r3, #0
    beq found
    add r2, r2, #1
    b scan
found:
    halt
";

const SUM_1_TO_N: &str = "
    mov r1, #100
    mov r2, #0
loop:
    add r2, r2, r1
    sub r1, r1, #1
    cmp r1, #0
    bne loop
    halt
";

#[test]
fn bitops() {
    let s = cross_check("bitops", BITOPS);
    assert_eq!(s.regs[3], 0x00F0);
    assert_eq!(s.regs[4], 0xFFF0);
    assert_eq!(s.regs[5], 0xFF00);
}

#[test]
fn branch_predicates() {
    cross_check("branch_predicates", BRANCH_PREDICATES);
}

#[test]
fn bubble_sort() {
    let s = cross_check("bubble_sort", BUBBLE_SORT);
    assert_eq!(&s.regs[1..6], &[(-2i64) as u64, 3, 5, 7, 9]);
}

#[test]
fn factorial() {
    let s = cross_check("factorial", FACTORIAL);
    assert_eq!(s.regs[2], 3_628_800);
}

#[test]
fn fibonacci() {
    let s = cross_check("fibonacci", FIBONACCI);
    assert_eq!(s.regs[1], 832_040);
}

#[test]
fn mem_stress() {
    let s = cross_check("mem_stress", MEM_STRESS);
    assert_eq!(s.regs[2], 0x7899_AABB_CCDD_EEFF);
    assert_eq!(s.regs[8] as i64, (0x99u8 as i8) as i64);
}

#[test]
fn memcpy() {
    let s = cross_check("memcpy", MEMCPY);
    assert_eq!(s.regs[4], 0x0102_0304_0506_0708);
    assert_eq!(s.regs[5], 0x1112_1314_1516_1718);
}

#[test]
fn run_all_instrs_all_modes() {
    cross_check("run_all_instrs_all_modes", RUN_ALL_INSTRS_ALL_MODES);
}

#[test]
fn sample_basics() {
    let s = cross_check("sample_basics", SAMPLE_BASICS);
    assert_eq!(s.regs[6], 3);
}

#[test]
fn signed_vs_unsigned() {
    cross_check("signed_vs_unsigned", SIGNED_VS_UNSIGNED);
}

#[test]
fn strlen() {
    let s = cross_check("strlen", STRLEN);
    assert_eq!(s.regs[2], 13);
}

#[test]
fn sum_1_to_n() {
    let s = cross_check("sum_1_to_n", SUM_1_TO_N);
    assert_eq!(s.regs[2], 5050);
}

// The one case the two simulators part ways: a store into the frame fetched
// right behind it. The pipeline has already latched the old bytes; the
// instruction-level machine fetches the patched ones.
#[test]
fn a_store_into_the_next_frame_is_seen_only_by_onestep() {
    let src = "
    mov r1, patch
    mov r2, #9
    st.b [r1 + #3], r2
patch:
    mov r3, #1
    halt
";
    let (one, _) = run_onestep(src);
    let (n, _) = run_nstep(src);
    assert_eq!(one.regs[3], 9);
    assert_eq!(n.regs[3], 1);
}

#[test]
fn onestep_runs_zeroed_memory_as_two_byte_nops() {
    // a zeroed frame, then a halt: the instruction-level machine takes the
    // zero bytes as a nop; the pipeline refuses a frame shorter than two bytes
    let image = [0x00, 0x00, 0x00, 0x00, 0xff, 0x20, 0x00, 0x00];
    let mut mem = MemGuard::new();
    mem.load(0, &image).expect("loads");
    let mut sh = Shared::new();
    let mut cpu = onestep::Processor::new();
    cpu.cycle(&mut mem, &mut sh, 10).expect("no fault");
    assert!(cpu.halted());
    assert_eq!(cpu.completed_instrs, 2);
    assert_eq!(cpu.pc, 8);

    let mut mem = MemGuard::new();
    mem.load(0, &image).expect("loads");
    let mut cpu = nstep::Processor::new();
    assert!(cpu.cycle(&mut mem, &mut sh, 10).is_err());
}

#[test]
fn a_trap_is_reported_by_both_machines_in_their_own_words() {
    let image = [0xfe, 0x30, 0x05, 0x00, 0xff, 0x20, 0x00, 0x00];
    let mut sh = Shared::new();
    let mut mem = MemGuard::new();
    mem.load(0, &image).expect("loads");
    let mut cpu = onestep::Processor::new();
    let err = cpu.cycle(&mut mem, &mut sh, 10).err().unwrap();
    assert_eq!(err.to_string(), "trap 0x05 at PC=0x0000000000000000 is not implemented");

    let mut mem = MemGuard::new();
    mem.load(0, &image).expect("loads");
    let mut cpu = nstep::Processor::new();
    let err = cpu.cycle(&mut mem, &mut sh, 10).err().unwrap();
    assert_eq!(err.to_string(), "trap 0x05 at pc 0x0000000000000000 is not implemented");
}

#[test]
fn a_register_operand_out_of_range_faults_in_decode() {
    // add r40, r1, r2: the destination names no register
    let image = [0x10, 0x50, 40, 1, 2, 0x00, 0x00, 0x00];
    let mut sh = Shared::new();
    let mut mem = MemGuard::new();
    mem.load(0, &image).expect("loads");
    let mut cpu = nstep::Processor::new();
    let err = cpu.cycle(&mut mem, &mut sh, 10).err().unwrap();
    assert_eq!(err.to_string(), "register operand r40 at 0x0000000000000000 is out of range (0..32)");
    assert_eq!(cpu.cycles, 1);
}
