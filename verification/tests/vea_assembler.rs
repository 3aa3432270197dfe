use vea::vea_sim::assembler::{assemble, assemble_raw, hex};

// Check every case and report all failures together, so a single bad row
// never masks the ones after it.
fn all<T>(cases: &[T], check: impl Fn(&T) -> Result<(), String>) {
    let fails: Vec<String> = cases.iter().filter_map(|c| check(c).err()).collect();
    assert!(fails.is_empty(), "\n{}", fails.join("\n"));
}

// Every mnemonic in INSTRUCTIONS, with the operand forms that shift the
// encoding, and the exact bytes each must produce (no alignment padding).
const ENCODE: &[(&str, &str)] = &[
    // processor control
    ("nop", "00 20"),
    ("halt", "ff 20"),
    ("trap", "fe 20"),
    ("trap 0x0d", "fe 30 0d"),
    // mov, register then immediate, including a negative literal
    ("mov r1, r2", "01 40 01 02"),
    ("mov r1, 0x1234", "01 51 01 12 34"),
    ("mov r5, -#1", "01 41 05 ff"),
    // alu, three register form
    ("add r1, r2, r3", "10 50 01 02 03"),
    ("sub r1, r2, r3", "11 50 01 02 03"),
    ("and r1, r2, r3", "12 50 01 02 03"),
    ("or r1, r2, r3", "13 50 01 02 03"),
    ("xor r1, r2, r3", "15 50 01 02 03"),
    ("shl r1, r2, r3", "16 50 01 02 03"),
    ("shr r1, r2, r3", "17 50 01 02 03"),
    ("sar r1, r2, r3", "18 50 01 02 03"),
    ("mul r1, r2, r3", "19 50 01 02 03"),
    ("div r1, r2, r3", "1a 50 01 02 03"),
    ("not r1, r2", "14 40 01 02"),
    // alu, immediate form (decimal `#`) and multi byte truncation (hex)
    ("add r1, r2, #5", "10 51 01 02 05"),
    ("sub r1, r1, #1", "11 51 01 01 01"),
    ("and r1, r2, 0xff", "12 61 01 02 00 ff"),
    // compare, unsigned and signed, plus the immediate zero edge
    ("cmp r1, r2", "20 40 01 02"),
    ("cmp.s r1, r2", "21 40 01 02"),
    ("cmp r1, #0", "20 31 01"),
    // branch, every predicate sits in the flag nibble, bit 3 marks an immediate
    ("b 0x08", "30 38 08"),
    ("beq 0x08", "30 39 08"),
    ("bne 0x08", "30 3a 08"),
    ("blt 0x08", "30 3b 08"),
    ("bge 0x08", "30 3c 08"),
    ("bgt 0x08", "30 3d 08"),
    ("ble 0x08", "30 3e 08"),
    ("b r1", "30 30 01"),
    ("beq r1", "30 31 01"),
    // jump is absolute
    ("jmp r7", "31 30 07"),
    ("jmp 0x1000", "31 48 10 00"),
    // load, size and sign in the flag nibble, displacement mode
    ("ld r5, [r6]", "40 41 05 06"),
    ("ld.b r5, [r6]", "40 43 05 06"),
    ("ld.h r5, [r6]", "40 45 05 06"),
    ("ld.w r5, [r6]", "40 47 05 06"),
    ("ld.sb r5, [r6]", "40 4b 05 06"),
    ("ld.sh r5, [r6]", "40 4d 05 06"),
    ("ld.sw r5, [r6]", "40 4f 05 06"),
    ("ld r5, [r6 + 0x10]", "40 51 05 06 10"),
    ("ld r5, [r6 + r7]", "40 50 05 06 07"),
    // store, no sign variants, value goes in the first register slot
    ("st [r6], r5", "41 41 05 06"),
    ("st.b [r6], r5", "41 43 05 06"),
    ("st.h [r6], r5", "41 45 05 06"),
    ("st.w [r6], r5", "41 47 05 06"),
    ("st [r6 - #4], r5", "41 51 05 06 fc"),
    ("st [r6 + r7], r5", "41 50 05 06 07"),
];

// A whole program and its padded image. Exercises labels, the relative
// branch offset, and per instruction alignment.
const IMAGE: &[(&str, &str)] = &[
    ("loop: sub r1, r1, #1\n b loop", "11 51 01 01 01 00 00 00 30 38 f8 00"),
    ("start: nop\n jmp start", "00 20 00 00 31 38 00 00"),
    ("b done\n done: nop", "30 38 04 00 00 20 00 00"),
];

// Sources the assembler must reject.
const REJECT: &[&str] = &[
    "add r1, r2",     // wrong operand count
    "add r1, r2, 5",  // decimal literal without the # prefix
    "mov r99, r1",    // register out of range
    "mov pc, r1",     // PC is architectural and not nameable
    "mov r33, r1",    // ...nor is its internal index
    "frobnicate r1",  // unknown mnemonic
    "b nowhere",      // unknown label
];


#[test]
fn instruction_encoding_matches_reference() {
    all(ENCODE, |&(src, want)| {
        let raw = assemble_raw(src).map_err(|e| format!("{src}: {e}"))?;
        match raw.as_slice() {
            [bytes] if hex(bytes) == want => Ok(()),
            [bytes] => Err(format!("{src}: got [{}] want [{want}]", hex(bytes))),
            _ => Err(format!("{src}: expected one instruction, got {}", raw.len())),
        }
    });
}

#[test]
fn image_layout_matches_reference() {
    all(IMAGE, |&(src, want)| {
        let (image, _) = assemble(src).map_err(|e| format!("{src}: {e}"))?;
        if hex(&image) == want {
            Ok(())
        } else {
            Err(format!("{src}: got [{}] want [{want}]", hex(&image)))
        }
    });
}

#[test]
fn invalid_sources_are_rejected() {
    all(REJECT, |&src| match assemble(src) {
        Err(_) => Ok(()),
        Ok(_) => Err(format!("{src}: assembled but should have been rejected")),
    });
}

#[test]
fn the_widest_frames_are_twelve_bytes() {
    for (src, want) in [
        ("add r1, r2, 0x7122334455667788", "10 c1 01 02 71 22 33 44 55 66 77 88"),
        ("ld r5, [r6 + 0x7122334455667788]", "40 c1 05 06 71 22 33 44 55 66 77 88"),
        ("mov r1, 0x7122334455667788", "01 b1 01 71 22 33 44 55 66 77 88"),
    ] {
        let raw = assemble_raw(src).unwrap();
        assert_eq!(raw.len(), 1, "{src}");
        assert_eq!(hex(&raw[0]), want, "{src}");
        assert!(raw[0].len() >= 2 && raw[0].len() <= 12, "{src}");
    }
}

#[test]
fn syntax_errors_name_the_line_and_what_went_wrong() {
    let cases: &[(&str, &str)] = &[
        ("add r1, r2", "line 1: add takes 3 operands, got 2"),
        ("add r1, r2, 5", "line 1: bad operand '5'"),
        ("mov r99, r1", "line 1: bad register 'r99'"),
        ("mov pc, r1", "line 1: bad register 'pc'"),
        ("nop\nfrobnicate r1", "line 2: unknown mnemonic 'frobnicate'"),
        ("ld r1, r2", "line 1: expected [address], got 'r2'"),
        ("ld r1, [r2 - r3]", "line 1: cannot subtract an index register in '[r2 - r3]'"),
        ("st [r6 + x!], r5", "line 1: bad address offset 'x!'"),
        ("trap #1, #2", "line 1: trap takes 0 or 1 operands"),
        ("halt r1", "line 1: halt takes 0 operands, got 1"),
    ];
    for &(src, want) in cases {
        assert_eq!(assemble(src).err().as_deref(), Some(want), "{src}");
        assert_eq!(assemble_raw(src).err().as_deref(), Some(want), "{src}");
    }
}
