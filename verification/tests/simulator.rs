use vea::assembler::assemble;
use vea::simulator::app::{App, Assembly, Effect, KeyPress, Panel};
use vea::simulator::logger::{self, Log, CAPACITY};
use vea::simulator::memory::{Fault, Memory, MEM_SIZE};
use vea::simulator::pipeline::decode::{decode, IdExLatch, MemOp};
use vea::simulator::pipeline::execute::ExLatch;
use vea::simulator::pipeline::fetch::{IfIdLatch, FRAME_BYTES};
use vea::simulator::processor::{Core, CoreState, RegisterFile, Trap, REG_COUNT};
use vea::simulator::view::{frame_spans, hex_row, log_window};
use vea::vea_sim::ui::app::Key;

fn latch_of(src: &str) -> IfIdLatch {
    let bytes = assemble(src).expect("assembles").bytes;
    let mut l = IfIdLatch::default();
    l.valid = true;
    l.pc = 0x40;
    l.bytes[..bytes.len()].copy_from_slice(&bytes);
    l
}

fn press(code: Key) -> KeyPress {
    KeyPress { code, ctrl: false, press: true }
}

#[test]
fn memory_starts_zeroed_and_loads_at_zero() {
    let mut m = Memory::new();
    assert_eq!(m.bytes.len(), MEM_SIZE);
    assert!(m.bytes.iter().all(|b| *b == 0));
    m.bytes[100] = 7;
    assert_eq!(m.load_image(&[1, 2, 3]), Ok(()));
    assert_eq!(&m.bytes[..4], &[1, 2, 3, 0]);
    assert_eq!(m.bytes[100], 0, "the rest is zero-filled");
    assert_eq!(m.image_len, 3);
}

#[test]
fn an_image_larger_than_memory_is_refused() {
    let mut m = Memory::new();
    let big = vec![0xAAu8; MEM_SIZE + 1];
    assert_eq!(m.load_image(&big), Err(Fault::OutOfBounds { addr: 0, len: MEM_SIZE + 1 }));
    assert_eq!(m.image_len, 0);
}

#[test]
fn memory_reads_inside_and_faults_past_the_end() {
    let mut m = Memory::new();
    m.load_image(&[9, 8, 7, 6]).unwrap();
    assert_eq!(m.read(1, 2), Ok(vec![8, 7]));
    assert_eq!(m.read((MEM_SIZE - 2) as u64, 2), Ok(vec![0, 0]));
    assert_eq!(
        m.read((MEM_SIZE - 1) as u64, 2),
        Err(Fault::OutOfBounds { addr: (MEM_SIZE - 1) as u64, len: 2 })
    );
}

#[test]
fn register_ports_read_the_bank_or_zero() {
    let mut c = Core::new(0x10);
    assert_eq!(c.pc, 0x10);
    assert_eq!(c.state, CoreState::Running(0x10));
    assert!(!c.halted);
    c.force_reg(3, 42);
    assert_eq!(c.regs.read_port(Some(3)), 42);
    assert_eq!(c.regs.read_port(Some(4)), 0);
    assert_eq!(c.regs.read_port(None), 0);
    let r = RegisterFile::default();
    assert_eq!(r.registers, [0u64; REG_COUNT]);
}

#[test]
fn breakpoints_set_move_and_clear_by_name() {
    let mut c = Core::new(0);
    assert_eq!(c.breakpoints.get("loop"), None);
    c.register_breakpoint("loop".to_string(), 0x20);
    c.register_breakpoint("end".to_string(), 0x40);
    assert_eq!(c.breakpoints.get("loop"), Some(0x20));
    c.register_breakpoint("loop".to_string(), 0x24);
    assert_eq!(c.breakpoints.get("loop"), Some(0x24));
    c.remove_breakpoint("loop".to_string());
    assert_eq!(c.breakpoints.get("loop"), None);
    assert_eq!(c.breakpoints.get("end"), Some(0x40));
}

#[test]
fn fetch_reads_the_widest_frame_and_pads_at_the_top() {
    let mut m = Memory::new();
    m.load_image(&[0x10, 0x30, 1, 2, 3]).unwrap();
    let l = Core::new(0).fetch(&m).unwrap();
    assert!(l.valid);
    assert_eq!(l.pc, 0);
    assert_eq!(&l.bytes[..6], &[0x10, 0x30, 1, 2, 3, 0]);
    assert_eq!(l.bytes.len(), FRAME_BYTES);

    m.bytes[MEM_SIZE - 1] = 0xEE;
    let top = Core::new((MEM_SIZE - 4) as u64).fetch(&m).unwrap();
    assert_eq!(&top.bytes[..5], &[0, 0, 0, 0xEE, 0]);

    let beyond = Core::new(MEM_SIZE as u64).fetch(&m).unwrap();
    assert_eq!(beyond.bytes, [0u8; FRAME_BYTES]);
}

#[test]
fn fetch_traps_on_an_odd_pc_or_a_short_memory() {
    let m = Memory::new();
    assert_eq!(Core::new(3).fetch(&m), Err(Trap::MisalignedPc { pc: 3 }));
    let short = Memory { bytes: vec![0; 8], image_len: 0 };
    assert_eq!(
        Core::new(0).fetch(&short),
        Err(Trap::Memory(Fault::OutOfBounds { addr: 0, len: FRAME_BYTES }))
    );
}

#[test]
fn decode_splits_register_and_immediate_forms() {
    let add = decode(&latch_of("add r1, r2, r3")).unwrap();
    assert!(add.valid);
    assert_eq!(add.pc, 0x40);
    assert_eq!(add.instr.unwrap().mnemonic, "add");
    assert_eq!((add.rd, add.rs1, add.rs2), (Some(1), Some(2), Some(3)));
    assert_eq!(add.imm_width, 0);
    assert_eq!(add.mem_op, None);

    let addi = decode(&latch_of("addi r1, r0, 5")).unwrap();
    assert_eq!((addi.rd, addi.rs1, addi.rs2), (Some(1), Some(0), None));
    assert_eq!(addi.imm_width, 1);
    // the raw 8-byte window after the registers, not yet narrowed
    assert_eq!(addi.imm_raw, 0x0500_0000_0000_0000);
}

#[test]
fn decode_tells_loads_from_stores() {
    let ld = decode(&latch_of("ld r1, [r2 + 4]")).unwrap();
    assert_eq!(ld.mem_op, Some(MemOp::Load));
    assert_eq!((ld.rd, ld.rs1), (Some(1), Some(2)));
    let st = decode(&latch_of("st r5, [r6 + 8]")).unwrap();
    assert_eq!(st.mem_op, Some(MemOp::Store));
    assert_eq!((st.rd, st.rs1, st.rs2), (None, Some(5), Some(6)));
    // A memory form always carries a displacement; without one the frame
    // does not match the form.
    assert_eq!(decode(&latch_of("ld r1, [r2]")), Err(Trap::MalformedInstruction { pc: 0x40 }));
}

#[test]
fn decode_rejects_unknown_and_malformed_frames() {
    assert_eq!(decode(&IfIdLatch::default()), Ok(IdExLatch::default()));
    let mut l = latch_of("nop");
    l.bytes[0] = 0x99;
    assert_eq!(decode(&l), Err(Trap::IllegalInstruction { pc: 0x40 }));
    let mut l = latch_of("add r1, r2, r3");
    l.bytes[1] = 0x20; // PLEN 2, but add names three registers
    assert_eq!(decode(&l), Err(Trap::MalformedInstruction { pc: 0x40 }));
    let mut l = latch_of("addi r1, r0, 5");
    l.bytes[1] = 0x50; // a 3-byte immediate
    assert_eq!(decode(&l), Err(Trap::MalformedInstruction { pc: 0x40 }));
}

#[test]
fn execute_runs_the_alu_on_ports_and_immediates() {
    let mut c = Core::new(0);
    c.force_reg(2, 2);
    c.force_reg(3, 3);
    let add = decode(&latch_of("add r1, r2, r3")).unwrap();
    assert_eq!(c.execute(&add), Ok(ExLatch { dest_reg_info: Some((1, 5)), dest_mem_info: None }));
    assert!(!c.stall_execute);

    let sub = decode(&latch_of("sub r4, r2, r3")).unwrap();
    assert_eq!(c.execute(&sub).unwrap().dest_reg_info, Some((4, (-1i64) as u64)));

    c.force_reg(5, i64::MIN as u64);
    c.force_reg(6, 1);
    let sat = decode(&latch_of("sub r7, r5, r6")).unwrap();
    assert_eq!(c.execute(&sat).unwrap().dest_reg_info, Some((7, i64::MIN as u64)), "saturates");

    // the immediate forms take the raw window as the second operand
    let mut andi = decode(&latch_of("andi r8, r3, 1")).unwrap();
    andi.imm_raw = 0xFF;
    assert_eq!(c.execute(&andi).unwrap().dest_reg_info, Some((8, 3 & 0xFF)));

    // the shifts and nor follow the instruction table
    c.force_reg(10, 1);
    c.force_reg(11, 4);
    let shl = decode(&latch_of("shl r1, r10, r11")).unwrap();
    assert_eq!(c.execute(&shl), Ok(ExLatch { dest_reg_info: Some((1, 16)), dest_mem_info: None }));
    let shr = decode(&latch_of("shr r1, r11, r10")).unwrap();
    assert_eq!(c.execute(&shr).unwrap().dest_reg_info, Some((1, 2)));
    c.force_reg(12, (-8i64) as u64);
    let sar = decode(&latch_of("sar r9, r12, r10")).unwrap();
    assert_eq!(c.execute(&sar).unwrap().dest_reg_info, Some((9, (-4i64) as u64)));
    let nor = decode(&latch_of("nor r9, r10, r11")).unwrap();
    assert_eq!(c.execute(&nor).unwrap().dest_reg_info, Some((9, !5u64)));
}

#[test]
fn a_memory_access_stalls_before_it_completes() {
    let mut c = Core::new(0);
    let ld = decode(&latch_of("ld r1, [r2 + 8]")).unwrap();
    assert_eq!(c.execute(&ld), Ok(ExLatch::default()));
    assert!(c.stall_execute);
    assert_eq!(c.ex_pending, Some(1));
    assert_eq!(c.execute(&ld), Ok(ExLatch::default()));
    assert!(c.stall_execute);
    assert_eq!(c.ex_pending, Some(0));
}

#[test]
fn a_bubble_does_nothing_in_execute() {
    let mut c = Core::new(0);
    c.stall_execute = true;
    assert_eq!(c.execute(&IdExLatch::default()), Ok(ExLatch::default()));
    assert!(!c.stall_execute);
}

#[test]
fn the_log_keeps_the_newest_lines() {
    let mut log = Log::new();
    for i in 0..(CAPACITY + 5) {
        logger::line(&mut log, format!("line {i}"));
    }
    assert_eq!(logger::len(&log), CAPACITY);
    let lines = logger::snapshot(&log);
    assert_eq!(lines[0], "line 5");
    assert_eq!(lines[CAPACITY - 1], format!("line {}", CAPACITY + 4));
}

#[test]
fn panels_have_titles_and_a_tab_order() {
    assert_eq!(Panel::Source.title(), "Source");
    assert_eq!(Panel::Disasm.title(), "Disassembly");
    assert_eq!(Panel::Log.index(), 4);
    let mut log = Log::new();
    let mut app = App::new(&mut log);
    assert_eq!(logger::snapshot(&log), vec!["ready - press 'o' to open a .s file".to_string()]);
    assert_eq!(app.focus, Panel::Source);
    app.on_key(press(Key::BackTab), &mut log);
    assert_eq!(app.focus, Panel::Log);
    app.on_key(press(Key::Tab), &mut log);
    app.on_key(press(Key::Tab), &mut log);
    assert_eq!(app.focus, Panel::Disasm);
}

#[test]
fn the_open_prompt_asks_for_the_trimmed_path() {
    let mut log = Log::new();
    let mut app = App::new(&mut log);
    assert_eq!(app.on_key(press(Key::Char('o')), &mut log), Effect::Nothing);
    assert_eq!(app.prompt.as_ref().unwrap().label, "open");
    for c in " a.sx".chars() {
        app.on_key(press(Key::Char(c)), &mut log);
    }
    app.on_key(press(Key::Backspace), &mut log);
    assert_eq!(app.prompt.as_ref().unwrap().buffer, " a.s");
    assert_eq!(app.on_key(press(Key::Enter), &mut log), Effect::Load("a.s".to_string()));
    assert!(app.prompt.is_none());
}

#[test]
fn loading_a_source_assembles_it_into_memory() {
    let mut log = Log::new();
    let mut app = App::new(&mut log);
    app.source_read("p.s".to_string(), Ok("nop\nhalt\n".to_string()), &mut log);
    assert_eq!(app.source, "nop\nhalt\n");
    assert_eq!(app.source_path.as_deref(), Some("p.s"));
    assert!(matches!(app.assembly, Assembly::Assembled { bytes: 4, symbols: 0 }));
    assert_eq!(&app.memory.bytes[..4], &[0x00, 0x00, 0xFF, 0x00]);
    assert_eq!(app.memory.image_len, 4);
    let lines = logger::snapshot(&log);
    assert_eq!(lines[1], "loaded p.s");
    assert_eq!(lines[2], "assembled: 4 bytes, 0 symbol(s)");
    assert_eq!(app.on_key(press(Key::Char('r')), &mut log), Effect::Load("p.s".to_string()));
}

#[test]
fn a_failed_read_or_assembly_is_logged() {
    let mut log = Log::new();
    let mut app = App::new(&mut log);
    assert_eq!(app.on_key(press(Key::Char('r')), &mut log), Effect::Nothing);
    app.source_read("x.s".to_string(), Err("no such file".to_string()), &mut log);
    app.source_read("y.s".to_string(), Ok("jmp nowhere".to_string()), &mut log);
    assert!(matches!(app.assembly, Assembly::Failed(_)));
    assert!(app.object.is_none());
    let lines = logger::snapshot(&log);
    assert_eq!(lines[1], "no file to reload");
    assert_eq!(lines[2], "open x.s: no such file");
    assert_eq!(lines[3], "loaded y.s");
    assert!(lines[4].starts_with("assembly error: "));
}

#[test]
fn scrolling_stays_inside_the_panel() {
    let mut log = Log::new();
    let mut app = App::new(&mut log);
    app.source_read("p.s".to_string(), Ok("nop\nnop\nnop\nhalt".to_string()), &mut log);
    for _ in 0..10 {
        app.on_key(press(Key::Char('j')), &mut log);
    }
    assert_eq!(app.scroll_of(Panel::Source), 3, "four lines scroll at most three");
    app.on_key(press(Key::Char('k')), &mut log);
    assert_eq!(app.scroll_of(Panel::Source), 2);
    app.on_key(press(Key::Char('g')), &mut log);
    assert_eq!(app.scroll_of(Panel::Source), 0);
    app.on_key(press(Key::End), &mut log);
    assert_eq!(app.scroll_of(Panel::Source), 3);
    app.on_key(press(Key::Tab), &mut log);
    app.on_key(press(Key::PageDown), &mut log);
    assert_eq!(app.scroll_of(Panel::Disasm), 4, "an 8-byte image shows five rows");
    app.on_key(press(Key::Tab), &mut log);
    app.on_key(press(Key::Tab), &mut log);
    app.on_key(press(Key::End), &mut log);
    assert_eq!(app.scroll_of(Panel::Memory), 4095);
    app.on_key(KeyPress { code: Key::Char('u'), ctrl: true, press: true }, &mut log);
    assert_eq!(app.scroll_of(Panel::Memory), 4085);
}

#[test]
fn keys_reset_quit_and_ignore_releases() {
    let mut log = Log::new();
    let mut app = App::new(&mut log);
    app.core.force_reg(1, 9);
    app.on_key(KeyPress { code: Key::Char('q'), ctrl: false, press: false }, &mut log);
    assert!(!app.quit_requested());
    app.on_key(press(Key::Char('R')), &mut log);
    assert_eq!(app.core.regs.registers[1], 0);
    app.on_key(press(Key::Char('s')), &mut log);
    let lines = logger::snapshot(&log);
    assert_eq!(lines[1], "core reset");
    assert_eq!(lines[2], "step: execution is not implemented yet");
    app.on_key(KeyPress { code: Key::Char('c'), ctrl: true, press: true }, &mut log);
    assert!(app.quit_requested());
}

#[test]
fn frame_spans_walk_the_image_frame_by_frame() {
    // two frames: a 4-byte one, then an odd 3-byte one followed by its pad byte;
    // the lone byte after that is no frame
    let img = [0x01, 0x20, 0xaa, 0xbb, 0x02, 0x10, 0x05, 0x00, 0xff];
    assert_eq!(frame_spans(&img), vec![(0, 4), (4, 7)]);
    // a frame that claims more payload than the image has is cut off
    assert_eq!(frame_spans(&[0x01, 0xf0, 0x01]), vec![(0, 3)]);
    assert_eq!(frame_spans(&[0x01]), Vec::<(usize, usize)>::new());
    assert_eq!(frame_spans(&[]), Vec::<(usize, usize)>::new());
}

#[test]
fn log_window_follows_the_tail_and_stops_at_the_oldest_line() {
    assert_eq!(log_window(10, 0, 4), (6, 10, 0));
    assert_eq!(log_window(10, 3, 4), (3, 7, 3));
    assert_eq!(log_window(10, 50, 4), (0, 1, 9));
    assert_eq!(log_window(2, 0, 8), (0, 2, 0));
    assert_eq!(log_window(0, 3, 4), (0, 0, 0));
}

#[test]
fn hex_row_splits_the_row_after_eight_bytes() {
    let bytes: Vec<u8> = (0u8..10).collect();
    assert_eq!(hex_row(&bytes), "00 01 02 03 04 05 06 07  08 09 ");
    assert_eq!(hex_row(&[0xab]), "ab ");
    assert_eq!(hex_row(&[]), "");
}
