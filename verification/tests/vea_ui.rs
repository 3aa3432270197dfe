use vea::vea_sim::assembler::{assemble_listing, ListingRow};
use vea::vea_sim::cli::{conform, parse_addr};
use vea::vea_sim::memory::MemGuard;
use vea::vea_sim::onestep::Processor;
use vea::vea_sim::shared::Shared;
use vea::vea_sim::ui::app::{parse_goto, Action, App, Key, Mode, Pane, Radix};
use vea::vea_sim::ui::view::{
    ascii_of, disasm_line, help_rect, human_bytes, mem_stride, pc_row, reg_grid, run_label, sync_disasm,
};
use vea::vea_sim::ui::{free_run, handle_action, reload};

#[test]
fn a_count_prefix_repeats_the_next_command() {
    let mut app = App::new(0x1000);
    assert_eq!(app.on_key(Key::Char('5')), Action::Nothing);
    assert_eq!(app.on_key(Key::Char('0')), Action::Nothing);
    assert_eq!(app.on_key(Key::Char('0')), Action::Nothing);
    assert_eq!(app.on_key(Key::Char('s')), Action::Step(500));
    assert_eq!(app.on_key(Key::Char('.')), Action::Step(1), "the count is used up");
    // a leading zero is not a count
    assert_eq!(app.on_key(Key::Char('0')), Action::Nothing);
    assert_eq!(app.count, None);
}

#[test]
fn the_count_is_capped() {
    let mut app = App::new(0);
    for _ in 0..12 {
        app.on_key(Key::Char('9'));
    }
    assert_eq!(app.on_key(Key::Char('s')), Action::Step(100_000_000));
}

#[test]
fn plain_keys_map_to_actions_and_toggles() {
    let mut app = App::new(0);
    assert_eq!(app.on_key(Key::Char('q')), Action::Quit);
    assert_eq!(app.on_key(Key::Char(' ')), Action::ToggleRun);
    assert_eq!(app.on_key(Key::Char('R')), Action::Reload);
    app.on_key(Key::Char('x'));
    assert!(app.radix == Radix::Signed);
    app.on_key(Key::Char('f'));
    assert!(!app.follow_pc);
    app.on_key(Key::Tab);
    assert!(app.focus == Pane::Registers);
    app.on_key(Key::BackTab);
    app.on_key(Key::BackTab);
    assert!(app.focus == Pane::Memory);
    app.on_key(Key::Char('?'));
    assert!(app.show_help);
    assert_eq!(app.on_key(Key::Char('q')), Action::Nothing, "any key closes help first");
    assert!(!app.show_help);
}

#[test]
fn scrolling_the_disassembly_clamps_to_the_program() {
    let mut app = App::new(0);
    app.prog_len = 10;
    app.disasm_rows = 4;
    app.on_key(Key::Char('3'));
    app.on_key(Key::Char('j'));
    assert_eq!(app.disasm_sel, 3);
    assert!(!app.follow_pc, "moving the selection stops following the PC");
    app.on_key(Key::PageDown);
    assert_eq!(app.disasm_sel, 7);
    app.on_key(Key::Char('d'));
    assert_eq!(app.disasm_sel, 9);
    app.on_key(Key::Char('9'));
    app.on_key(Key::Char('9'));
    app.on_key(Key::Up);
    assert_eq!(app.disasm_sel, 0);
}

#[test]
fn scrolling_memory_moves_by_whole_rows() {
    let mut app = App::new(0x1234);
    assert_eq!(app.mem_base, 0x1230);
    app.on_key(Key::Tab);
    app.on_key(Key::Tab);
    app.on_key(Key::Char('2'));
    app.on_key(Key::Down);
    assert_eq!(app.mem_base, 0x1250);
    app.on_key(Key::PageUp);
    assert_eq!(app.mem_base, 0x1150);
    app.cur_pc = 0x2008;
    app.on_key(Key::Char('G'));
    assert_eq!(app.mem_base, 0x2000);
    assert!(app.follow_pc);
    app.on_key(Key::Home);
    assert_eq!(app.mem_base, 0x1230);
    assert!(!app.follow_pc);
}

#[test]
fn the_goto_prompt_jumps_memory_to_a_hex_address() {
    let mut app = App::new(0);
    app.on_key(Key::Char(':'));
    assert!(matches!(app.mode, Mode::Goto(_)));
    for c in "1f0g3".chars() {
        app.on_key(Key::Char(c));
    }
    app.on_key(Key::Backspace);
    assert_eq!(app.on_key(Key::Enter), Action::Nothing);
    assert!(matches!(app.mode, Mode::Normal));
    assert_eq!(app.mem_base, 0x1f0);
    assert!(app.focus == Pane::Memory);

    app.on_key(Key::Char(':'));
    app.on_key(Key::Esc);
    assert!(matches!(app.mode, Mode::Normal));
    assert_eq!(parse_goto(&[' ', '0', 'x', 'F', 'F']), Some(0xFF));
    assert_eq!(parse_goto(&[]), None);
}

#[test]
fn human_bytes_picks_the_unit() {
    assert_eq!(human_bytes(0), "0 B");
    assert_eq!(human_bytes(1023), "1023 B");
    assert_eq!(human_bytes(1536), "1 KiB");
    assert_eq!(human_bytes(3 * 1024 * 1024 + 5), "3 MiB");
}

#[test]
fn disassembly_rows_line_up() {
    assert_eq!(
        disasm_line(true, 0x10, &[0x10, 0x50, 0x01, 0x02, 0x03], "add r1, r2, r3"),
        format!("\u{25b6} {:08x}  {:<23}  {}", 0x10, "10 50 01 02 03", "add r1, r2, r3")
    );
    assert_eq!(disasm_line(false, 0, &[], "x"), format!("  00000000  {}  x", " ".repeat(23)));
}

#[test]
fn the_view_follows_the_pc_row() {
    let (_, rows): (Vec<u8>, Vec<ListingRow>) = assemble_listing("nop\nnop\nhalt\n").unwrap();
    assert_eq!(pc_row(&rows, 4), Some(1));
    assert_eq!(pc_row(&rows, 6), None);
    let mut app = App::new(0);
    sync_disasm(&mut app, &rows, 8, 12);
    assert_eq!(app.disasm_sel, 2);
    assert_eq!(app.disasm_rows, 10);
    app.follow_pc = false;
    app.disasm_sel = 40;
    sync_disasm(&mut app, &rows, 0, 1);
    assert_eq!(app.disasm_sel, 2);
    assert_eq!(app.disasm_rows, 0);
}

#[test]
fn layout_numbers_fit_the_pane() {
    assert_eq!(mem_stride(200), 16);
    assert_eq!(mem_stride(75), 16);
    assert_eq!(mem_stride(74), 8);
    assert_eq!(mem_stride(10), 4);
    assert_eq!(ascii_of(b"Hi\x00\x7f~"), "Hi..~");
    assert_eq!(reg_grid(100, Radix::Hex), (4, 8));
    assert_eq!(reg_grid(50, Radix::Signed), (1, 32));
    assert_eq!(reg_grid(66, Radix::Hex), (3, 11));
    assert_eq!(run_label(true, true, true), "FAULT");
    assert_eq!(run_label(false, false, false), "PAUSED");
    assert_eq!(help_rect(0, 0, 100, 40), Some((21, 11, 58, 18)));
    assert_eq!(help_rect(0, 0, 43, 40), None);
}

#[test]
fn address_arguments_take_decimal_or_hex() {
    assert_eq!(parse_addr("4096"), Ok(4096));
    assert_eq!(parse_addr(" 0x1000 "), Ok(4096));
    assert_eq!(parse_addr("0X1f"), Ok(31));
    assert_eq!(parse_addr("18446744073709551615"), Ok(u64::MAX));
    assert_eq!(parse_addr("abc"), Err("not a valid address: abc".to_string()));
    assert!(parse_addr("-1").is_err());
    assert!(parse_addr("0x").is_err());
    assert!(parse_addr("18446744073709551616").is_err());
}

#[test]
fn conform_dumps_the_final_registers() {
    let mut mem = MemGuard::new();
    let mut sh = Shared::new();
    let out = conform("mov r1, #5\nmov r31, 0xabc\nhalt\n", 100, &mut mem, &mut sh).unwrap();
    let lines: Vec<&str> = out.lines().collect();
    assert_eq!(lines.len(), 32);
    assert_eq!(lines[0], "0000000000000000");
    assert_eq!(lines[1], "0000000000000005");
    assert_eq!(lines[31], "0000000000000abc");
}

#[test]
fn conform_reports_a_program_that_does_not_halt() {
    let mut mem = MemGuard::new();
    let mut sh = Shared::new();
    assert_eq!(
        conform("loop: b loop\n", 10, &mut mem, &mut sh),
        Err("did not halt within 10 instructions".to_string())
    );
    assert!(conform("frobnicate r1\n", 10, &mut MemGuard::new(), &mut Shared::new()).is_err());
}

#[test]
fn conform_passes_on_the_assembler_and_simulator_messages() {
    assert_eq!(
        conform("nop\nfrobnicate r1\n", 10, &mut MemGuard::new(), &mut Shared::new()),
        Err("line 2: unknown mnemonic 'frobnicate'".to_string())
    );
    assert_eq!(
        conform("mov r2, #0\ndiv r1, r2, r2\nhalt\n", 10, &mut MemGuard::new(), &mut Shared::new()),
        Err("divide by zero".to_string())
    );
}

#[test]
fn reload_restarts_at_the_load_address() {
    let (image, _) = assemble_listing("mov r1, #7\nhalt\n").unwrap();
    let mut mem = MemGuard::new();
    let mut sh = Shared::new();
    let mut cpu = Processor::new();
    mem.write(0x9000, 1, 0x55).unwrap();
    reload(&mut cpu, &mut mem, &mut sh, &image, 0x100).unwrap();
    assert_eq!(cpu.pc, 0x100);
    assert_eq!(mem.read(0x9000, 1).unwrap(), 0, "memory is cleared first");
    assert_eq!(sh.snapshot.pc, 0x100);
    let mut app = App::new(0x100);
    app.running = true;
    assert_eq!(
        handle_action(&mut app, &mut cpu, &mut mem, &mut sh, Action::Step(2), &image, 0x100).unwrap(),
        false
    );
    assert_eq!(cpu.regs[1], 7);
    assert!(cpu.halted());
    handle_action(&mut app, &mut cpu, &mut mem, &mut sh, Action::ToggleRun, &image, 0x100).unwrap();
    assert!(!app.running);
    handle_action(&mut app, &mut cpu, &mut mem, &mut sh, Action::ToggleRun, &image, 0x100).unwrap();
    assert!(!app.running, "a halted machine does not start running");
    handle_action(&mut app, &mut cpu, &mut mem, &mut sh, Action::Reload, &image, 0x100).unwrap();
    assert!(!cpu.halted());
    assert_eq!(cpu.regs[1], 0);
    assert!(handle_action(&mut app, &mut cpu, &mut mem, &mut sh, Action::Quit, &image, 0x100).unwrap());
}

#[test]
fn free_running_stops_at_a_halt() {
    let (image, _) = assemble_listing("mov r1, #3\nloop: sub r1, r1, #1\ncmp r1, #0\nbne loop\nhalt\n").unwrap();
    let mut mem = MemGuard::new();
    let mut sh = Shared::new();
    let mut cpu = Processor::new();
    reload(&mut cpu, &mut mem, &mut sh, &image, 0).unwrap();
    let mut app = App::new(0);
    free_run(&mut app, &mut cpu, &mut mem, &mut sh);
    assert_eq!(cpu.completed_instrs, 0, "nothing runs while paused");
    app.running = true;
    free_run(&mut app, &mut cpu, &mut mem, &mut sh);
    assert!(cpu.halted());
    assert!(!app.running);
    assert_eq!(cpu.regs[1], 0);
}
