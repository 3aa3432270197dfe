use vea::assembler::assemble;
use vea::assembler::ast::{Instr, Operand};
use vea::assembler::encode::{build, min_width, ADDR_WIDTH};
use vea::assembler::isa::opcodes::{by_mnemonic, by_opcode, instructions};
use vea::assembler::isa::registers::{lookup, name, COUNT};
use vea::assembler::parser::parse_int;

fn assembled(src: &str) -> Vec<u8> {
    assemble(src).expect("assembles").bytes
}

#[test]
fn nop() {
    assert_eq!(assembled("nop"), vec![0x00, 0x00]);
}

#[test]
fn addi_hand_check() {
    // addi r1, r0, 0x100  ->  20 40 01 00 01 00
    assert_eq!(assembled("addi r1, r0, 0x100"), vec![0x20, 0x40, 0x01, 0x00, 0x01, 0x00]);
}

#[test]
fn immediate_width_follows_value() {
    assert_eq!(assembled("addi r1, r0, 5"), vec![0x20, 0x30, 0x01, 0x00, 0x05]);
    assert_eq!(assembled("addi r1, r0, 0"), vec![0x20, 0x20, 0x01, 0x00]);
}

#[test]
fn alignment_pad_between_odd_frames() {
    // add r1,r2,r3 = 5 bytes, then a pad byte, then nop
    assert_eq!(
        assembled("add r1, r2, r3\nnop"),
        vec![0x10, 0x30, 0x01, 0x02, 0x03, 0x00, 0x00, 0x00]
    );
}

#[test]
fn label_address_is_backfilled_64bit() {
    // start: nop           -> 00 00           at 0
    // loop:  jmp loop      -> 48 80 <8 bytes> at 2, loop = 2
    let out = assembled("start:\n  nop\nloop:\n  jmp loop\n");
    assert_eq!(&out[..2], &[0x00, 0x00]);
    assert_eq!(&out[2..4], &[0x48, 0x80]);
    assert_eq!(&out[4..12], &[0, 0, 0, 0, 0, 0, 0, 2]);
}

#[test]
fn mem_operand() {
    assert_eq!(assembled("ld r1, [r2]"), vec![0x50, 0x20, 0x01, 0x02]);
    assert_eq!(assembled("ld r1, [r2 + 4]"), vec![0x50, 0x30, 0x01, 0x02, 0x04]);
}

#[test]
fn undefined_label_is_an_error() {
    assert!(assemble("jmp nowhere").is_err());
}

#[test]
fn width_by_value() {
    assert_eq!(min_width(0), 0);
    assert_eq!(min_width(5), 1);
    assert_eq!(min_width(255), 1);
    assert_eq!(min_width(256), 2);
    assert_eq!(min_width(-1), 1);
    assert_eq!(min_width(-129), 2);
    assert_eq!(min_width(0xFFFF_FFFF), 4);
    assert_eq!(min_width(0x1_0000_0000), 8);
}

#[test]
fn label_ref_reserves_eight_bytes() {
    let e = build(&Instr {
        mnemonic: "jmp".into(),
        operands: vec![Operand::Sym("target".into())],
    })
    .unwrap();
    // opcode + lenbyte + 8 placeholder bytes
    assert_eq!(e.bytes.len(), 2 + ADDR_WIDTH);
    let f = e.fixup.unwrap();
    assert_eq!(f.at, 2);
    assert_eq!(f.symbol, "target");
}

#[test]
fn mnemonics_are_unique() {
    let table = instructions();
    let mut seen: Vec<&str> = Vec::new();
    for i in &table {
        assert!(!seen.contains(&i.mnemonic), "duplicate mnemonic {}", i.mnemonic);
        seen.push(i.mnemonic);
        assert!(i.flags <= 0x0F, "{} flags out of nibble range", i.mnemonic);
        if let Some(w) = i.writes {
            assert!((w as u32) < i.form.reg_count() as u32, "{} writes out-of-range slot {w}", i.mnemonic);
        }
    }
}

#[test]
fn shared_opcodes_have_distinct_flags() {
    // Same opcode is fine (ldb/ldbu) as long as flags differ.
    let table = instructions();
    for (n, a) in table.iter().enumerate() {
        for b in &table[n + 1..] {
            if a.opcode == b.opcode {
                assert_ne!(a.flags, b.flags, "{} and {} collide", a.mnemonic, b.mnemonic);
            }
        }
    }
}

#[test]
fn a_character_literal_is_an_integer_operand() {
    let prog = vea::assembler::parser::parse("movi r1, 'A'").unwrap();
    assert_eq!(prog.items.len(), 1);
    match &prog.items[0].kind {
        vea::assembler::ast::ItemKind::Instr(i) => {
            assert_eq!(i.mnemonic, "movi");
            assert!(matches!(i.operands[0], Operand::Reg(1)));
            assert!(matches!(i.operands[1], Operand::Int(65)));
        }
        _ => panic!("expected an instruction"),
    }
    let obj = assemble("movi r1, 'A'").unwrap();
    assert_eq!(obj.bytes, vec![0x03, 0x20, 0x01, 0x41]);
}

#[test]
fn every_row_is_found_by_mnemonic_in_any_case_and_by_opcode() {
    for d in instructions() {
        assert_eq!(by_mnemonic(d.mnemonic), Some(d));
        assert_eq!(by_mnemonic(&d.mnemonic.to_ascii_uppercase()), Some(d));
        assert_eq!(by_opcode(d.opcode, d.flags), Some(d));
        assert!(d.flags <= 0x0F);
    }
    assert_eq!(by_mnemonic("frobnicate"), None);
}

#[test]
fn every_register_name_looks_up_its_register_in_any_case() {
    for i in 0..COUNT {
        assert_eq!(lookup(&name(i)), Some(i));
        assert_eq!(lookup(&name(i).to_ascii_uppercase()), Some(i));
    }
    assert_eq!(lookup("r32"), None);
}

fn error_of(src: &str) -> String {
    match assemble(src) {
        Err(e) => e,
        Ok(_) => panic!("{src}: assembled but should have been rejected"),
    }
}

#[test]
fn error_messages_name_what_went_wrong() {
    assert_eq!(error_of("a:\na:"), "line 2: duplicate label `a`");
    assert_eq!(error_of("nop\njmp nowhere"), "line 2: undefined label `nowhere`");
    assert_eq!(
        error_of("movi r1, 0x10000000000000000"),
        "line 1: immediate 18446744073709551616 does not fit in 64 bits"
    );
    assert_eq!(error_of("add r1, r2, @"), "line 1: can't parse operand `@`");
    assert_eq!(error_of("1x:"), "line 1: not a valid label: `1x:`");
    assert_eq!(error_of("ld r1, [q1]"), "line 1: `q1` is not a register");
    assert_eq!(error_of("ld r1, [r2 + zz]"), "line 1: bad displacement `zz`");
}

#[test]
fn a_program_of_table_rows_is_its_frames_on_even_addresses() {
    let obj = assemble("ADD r1, r2, r3\nmovi r4, 0x1234\nnop").unwrap();
    assert_eq!(
        obj.bytes,
        vec![0x10, 0x30, 1, 2, 3, 0x00, 0x03, 0x30, 4, 0x12, 0x34, 0x00, 0x00, 0x00]
    );
    assert!(obj.symbols.is_empty());
}

#[test]
fn integer_literals_read_in_every_documented_form() {
    let read = |s: &str| parse_int(&s.chars().collect::<Vec<char>>());
    assert_eq!(read("42"), Some(42));
    assert_eq!(read("0x2a"), Some(42));
    assert_eq!(read("0X2A"), Some(42));
    assert_eq!(read("0b1010"), Some(10));
    assert_eq!(read("0o17"), Some(15));
    assert_eq!(read("-1"), Some(-1));
    assert_eq!(read("- 1"), Some(-1));
    assert_eq!(read("+7"), Some(7));
    assert_eq!(read("1_000"), Some(1000));
    assert_eq!(read("  12  "), Some(12));
    assert_eq!(read(""), None);
    assert_eq!(read("0x"), None);
    assert_eq!(read("0x_"), None);
    assert_eq!(read("12z"), None);
    assert_eq!(read("0b102"), None);
}
