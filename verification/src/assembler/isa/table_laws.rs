//! Laws of the instruction table: every row is found again by its
//! mnemonic, in any letter case, and by its (opcode, flags) pair; every
//! mnemonic is lower case, every flags value fits the nibble, and every row
//! has the table's shape.
use crate::assembler::isa::opcodes::{by_mnemonic_spec, find_mnemonic, find_opcode, instructions_spec, row_ok};
use crate::text::spec_lower;
use vstd::prelude::*;

verus! {

/// What the table promises of row `k`.
pub open spec fn row_found(k: int) -> bool {
    let t = instructions_spec();
    &&& find_mnemonic(t, t[k].mnemonic@, 0) == Some(t[k])
    &&& find_opcode(t, t[k].opcode, t[k].flags, 0) == Some(t[k])
    &&& spec_lower(t[k].mnemonic@) == t[k].mnemonic@
    &&& t[k].flags <= 0xF
    &&& row_ok(t[k])
}

/// The rows of the table, spelled out.
proof fn lemma_table_rows()
    ensures
        instructions_spec()[0].mnemonic@ == seq!['n', 'o', 'p'] && instructions_spec()[0].opcode == 0x00 && instructions_spec()[0].flags == 0,
        instructions_spec()[1].mnemonic@ == seq!['m', 'o', 'v'] && instructions_spec()[1].opcode == 0x02 && instructions_spec()[1].flags == 0,
        instructions_spec()[2].mnemonic@ == seq!['m', 'o', 'v', 'i'] && instructions_spec()[2].opcode == 0x03 && instructions_spec()[2].flags == 0,
        instructions_spec()[3].mnemonic@ == seq!['a', 'd', 'd'] && instructions_spec()[3].opcode == 0x10 && instructions_spec()[3].flags == 0,
        instructions_spec()[4].mnemonic@ == seq!['s', 'u', 'b'] && instructions_spec()[4].opcode == 0x11 && instructions_spec()[4].flags == 0,
        instructions_spec()[5].mnemonic@ == seq!['a', 'n', 'd'] && instructions_spec()[5].opcode == 0x12 && instructions_spec()[5].flags == 0,
        instructions_spec()[6].mnemonic@ == seq!['o', 'r'] && instructions_spec()[6].opcode == 0x13 && instructions_spec()[6].flags == 0,
        instructions_spec()[7].mnemonic@ == seq!['x', 'o', 'r'] && instructions_spec()[7].opcode == 0x14 && instructions_spec()[7].flags == 0,
        instructions_spec()[8].mnemonic@ == seq!['n', 'o', 'r'] && instructions_spec()[8].opcode == 0x15 && instructions_spec()[8].flags == 0,
        instructions_spec()[9].mnemonic@ == seq!['s', 'h', 'l'] && instructions_spec()[9].opcode == 0x16 && instructions_spec()[9].flags == 0,
        instructions_spec()[10].mnemonic@ == seq!['s', 'h', 'r'] && instructions_spec()[10].opcode == 0x17 && instructions_spec()[10].flags == 0,
        instructions_spec()[11].mnemonic@ == seq!['s', 'a', 'r'] && instructions_spec()[11].opcode == 0x18 && instructions_spec()[11].flags == 0,
        instructions_spec()[12].mnemonic@ == seq!['a', 'd', 'd', 'i'] && instructions_spec()[12].opcode == 0x20 && instructions_spec()[12].flags == 0,
        instructions_spec()[13].mnemonic@ == seq!['a', 'n', 'd', 'i'] && instructions_spec()[13].opcode == 0x21 && instructions_spec()[13].flags == 0,
        instructions_spec()[14].mnemonic@ == seq!['o', 'r', 'i'] && instructions_spec()[14].opcode == 0x22 && instructions_spec()[14].flags == 0,
        instructions_spec()[15].mnemonic@ == seq!['x', 'o', 'r', 'i'] && instructions_spec()[15].opcode == 0x23 && instructions_spec()[15].flags == 0,
        instructions_spec()[16].mnemonic@ == seq!['s', 'h', 'l', 'i'] && instructions_spec()[16].opcode == 0x24 && instructions_spec()[16].flags == 0,
        instructions_spec()[17].mnemonic@ == seq!['s', 'h', 'r', 'i'] && instructions_spec()[17].opcode == 0x25 && instructions_spec()[17].flags == 0,
        instructions_spec()[18].mnemonic@ == seq!['s', 'a', 'r', 'i'] && instructions_spec()[18].opcode == 0x26 && instructions_spec()[18].flags == 0,
        instructions_spec()[19].mnemonic@ == seq!['s', 'l', 't'] && instructions_spec()[19].opcode == 0x30 && instructions_spec()[19].flags == 0,
        instructions_spec()[20].mnemonic@ == seq!['s', 'l', 't', 'u'] && instructions_spec()[20].opcode == 0x31 && instructions_spec()[20].flags == 0,
        instructions_spec()[21].mnemonic@ == seq!['s', 'e', 'q'] && instructions_spec()[21].opcode == 0x32 && instructions_spec()[21].flags == 0,
        instructions_spec()[22].mnemonic@ == seq!['s', 'n', 'e'] && instructions_spec()[22].opcode == 0x33 && instructions_spec()[22].flags == 0,
        instructions_spec()[23].mnemonic@ == seq!['s', 'l', 'e'] && instructions_spec()[23].opcode == 0x34 && instructions_spec()[23].flags == 0,
        instructions_spec()[24].mnemonic@ == seq!['s', 'l', 'e', 'u'] && instructions_spec()[24].opcode == 0x35 && instructions_spec()[24].flags == 0,
        instructions_spec()[25].mnemonic@ == seq!['s', 'g', 'e'] && instructions_spec()[25].opcode == 0x36 && instructions_spec()[25].flags == 0,
        instructions_spec()[26].mnemonic@ == seq!['s', 'g', 'e', 'u'] && instructions_spec()[26].opcode == 0x37 && instructions_spec()[26].flags == 0,
        instructions_spec()[27].mnemonic@ == seq!['b', 'e', 'q'] && instructions_spec()[27].opcode == 0x40 && instructions_spec()[27].flags == 0,
        instructions_spec()[28].mnemonic@ == seq!['b', 'n', 'e'] && instructions_spec()[28].opcode == 0x41 && instructions_spec()[28].flags == 0,
        instructions_spec()[29].mnemonic@ == seq!['b', 'l', 't'] && instructions_spec()[29].opcode == 0x42 && instructions_spec()[29].flags == 0,
        instructions_spec()[30].mnemonic@ == seq!['b', 'l', 't', 'u'] && instructions_spec()[30].opcode == 0x43 && instructions_spec()[30].flags == 0,
        instructions_spec()[31].mnemonic@ == seq!['b', 'g', 'e'] && instructions_spec()[31].opcode == 0x44 && instructions_spec()[31].flags == 0,
        instructions_spec()[32].mnemonic@ == seq!['b', 'g', 'e', 'u'] && instructions_spec()[32].opcode == 0x45 && instructions_spec()[32].flags == 0,
        instructions_spec()[33].mnemonic@ == seq!['j', 'm', 'p'] && instructions_spec()[33].opcode == 0x48 && instructions_spec()[33].flags == 0,
        instructions_spec()[34].mnemonic@ == seq!['j', 'r'] && instructions_spec()[34].opcode == 0x49 && instructions_spec()[34].flags == 0,
        instructions_spec()[35].mnemonic@ == seq!['c', 'a', 'l', 'l'] && instructions_spec()[35].opcode == 0x4A && instructions_spec()[35].flags == 0,
        instructions_spec()[36].mnemonic@ == seq!['c', 'a', 'l', 'l', 'r'] && instructions_spec()[36].opcode == 0x4B && instructions_spec()[36].flags == 0,
        instructions_spec()[37].mnemonic@ == seq!['r', 'e', 't'] && instructions_spec()[37].opcode == 0x4C && instructions_spec()[37].flags == 0,
        instructions_spec()[38].mnemonic@ == seq!['l', 'd'] && instructions_spec()[38].opcode == 0x50 && instructions_spec()[38].flags == 0,
        instructions_spec()[39].mnemonic@ == seq!['l', 'd', 'w'] && instructions_spec()[39].opcode == 0x51 && instructions_spec()[39].flags == 1,
        instructions_spec()[40].mnemonic@ == seq!['l', 'd', 'w', 'u'] && instructions_spec()[40].opcode == 0x51 && instructions_spec()[40].flags == 0,
        instructions_spec()[41].mnemonic@ == seq!['l', 'd', 'h'] && instructions_spec()[41].opcode == 0x52 && instructions_spec()[41].flags == 1,
        instructions_spec()[42].mnemonic@ == seq!['l', 'd', 'h', 'u'] && instructions_spec()[42].opcode == 0x52 && instructions_spec()[42].flags == 0,
        instructions_spec()[43].mnemonic@ == seq!['l', 'd', 'b'] && instructions_spec()[43].opcode == 0x53 && instructions_spec()[43].flags == 1,
        instructions_spec()[44].mnemonic@ == seq!['l', 'd', 'b', 'u'] && instructions_spec()[44].opcode == 0x53 && instructions_spec()[44].flags == 0,
        instructions_spec()[45].mnemonic@ == seq!['s', 't'] && instructions_spec()[45].opcode == 0x54 && instructions_spec()[45].flags == 0,
        instructions_spec()[46].mnemonic@ == seq!['s', 't', 'w'] && instructions_spec()[46].opcode == 0x55 && instructions_spec()[46].flags == 0,
        instructions_spec()[47].mnemonic@ == seq!['s', 't', 'h'] && instructions_spec()[47].opcode == 0x56 && instructions_spec()[47].flags == 0,
        instructions_spec()[48].mnemonic@ == seq!['s', 't', 'b'] && instructions_spec()[48].opcode == 0x57 && instructions_spec()[48].flags == 0,
        instructions_spec()[49].mnemonic@ == seq!['h', 'a', 'l', 't'] && instructions_spec()[49].opcode == 0xFF && instructions_spec()[49].flags == 0,
{
    reveal_strlit("nop");
    assert(instructions_spec()[0].mnemonic@ =~= seq!['n', 'o', 'p']);
    reveal_strlit("mov");
    assert(instructions_spec()[1].mnemonic@ =~= seq!['m', 'o', 'v']);
    reveal_strlit("movi");
    assert(instructions_spec()[2].mnemonic@ =~= seq!['m', 'o', 'v', 'i']);
    reveal_strlit("add");
    assert(instructions_spec()[3].mnemonic@ =~= seq!['a', 'd', 'd']);
    reveal_strlit("sub");
    assert(instructions_spec()[4].mnemonic@ =~= seq!['s', 'u', 'b']);
    reveal_strlit("and");
    assert(instructions_spec()[5].mnemonic@ =~= seq!['a', 'n', 'd']);
    reveal_strlit("or");
    assert(instructions_spec()[6].mnemonic@ =~= seq!['o', 'r']);
    reveal_strlit("xor");
    assert(instructions_spec()[7].mnemonic@ =~= seq!['x', 'o', 'r']);
    reveal_strlit("nor");
    assert(instructions_spec()[8].mnemonic@ =~= seq!['n', 'o', 'r']);
    reveal_strlit("shl");
    assert(instructions_spec()[9].mnemonic@ =~= seq!['s', 'h', 'l']);
    reveal_strlit("shr");
    assert(instructions_spec()[10].mnemonic@ =~= seq!['s', 'h', 'r']);
    reveal_strlit("sar");
    assert(instructions_spec()[11].mnemonic@ =~= seq!['s', 'a', 'r']);
    reveal_strlit("addi");
    assert(instructions_spec()[12].mnemonic@ =~= seq!['a', 'd', 'd', 'i']);
    reveal_strlit("andi");
    assert(instructions_spec()[13].mnemonic@ =~= seq!['a', 'n', 'd', 'i']);
    reveal_strlit("ori");
    assert(instructions_spec()[14].mnemonic@ =~= seq!['o', 'r', 'i']);
    reveal_strlit("xori");
    assert(instructions_spec()[15].mnemonic@ =~= seq!['x', 'o', 'r', 'i']);
    reveal_strlit("shli");
    assert(instructions_spec()[16].mnemonic@ =~= seq!['s', 'h', 'l', 'i']);
    reveal_strlit("shri");
    assert(instructions_spec()[17].mnemonic@ =~= seq!['s', 'h', 'r', 'i']);
    reveal_strlit("sari");
    assert(instructions_spec()[18].mnemonic@ =~= seq!['s', 'a', 'r', 'i']);
    reveal_strlit("slt");
    assert(instructions_spec()[19].mnemonic@ =~= seq!['s', 'l', 't']);
    reveal_strlit("sltu");
    assert(instructions_spec()[20].mnemonic@ =~= seq!['s', 'l', 't', 'u']);
    reveal_strlit("seq");
    assert(instructions_spec()[21].mnemonic@ =~= seq!['s', 'e', 'q']);
    reveal_strlit("sne");
    assert(instructions_spec()[22].mnemonic@ =~= seq!['s', 'n', 'e']);
    reveal_strlit("sle");
    assert(instructions_spec()[23].mnemonic@ =~= seq!['s', 'l', 'e']);
    reveal_strlit("sleu");
    assert(instructions_spec()[24].mnemonic@ =~= seq!['s', 'l', 'e', 'u']);
    reveal_strlit("sge");
    assert(instructions_spec()[25].mnemonic@ =~= seq!['s', 'g', 'e']);
    reveal_strlit("sgeu");
    assert(instructions_spec()[26].mnemonic@ =~= seq!['s', 'g', 'e', 'u']);
    reveal_strlit("beq");
    assert(instructions_spec()[27].mnemonic@ =~= seq!['b', 'e', 'q']);
    reveal_strlit("bne");
    assert(instructions_spec()[28].mnemonic@ =~= seq!['b', 'n', 'e']);
    reveal_strlit("blt");
    assert(instructions_spec()[29].mnemonic@ =~= seq!['b', 'l', 't']);
    reveal_strlit("bltu");
    assert(instructions_spec()[30].mnemonic@ =~= seq!['b', 'l', 't', 'u']);
    reveal_strlit("bge");
    assert(instructions_spec()[31].mnemonic@ =~= seq!['b', 'g', 'e']);
    reveal_strlit("bgeu");
    assert(instructions_spec()[32].mnemonic@ =~= seq!['b', 'g', 'e', 'u']);
    reveal_strlit("jmp");
    assert(instructions_spec()[33].mnemonic@ =~= seq!['j', 'm', 'p']);
    reveal_strlit("jr");
    assert(instructions_spec()[34].mnemonic@ =~= seq!['j', 'r']);
    reveal_strlit("call");
    assert(instructions_spec()[35].mnemonic@ =~= seq!['c', 'a', 'l', 'l']);
    reveal_strlit("callr");
    assert(instructions_spec()[36].mnemonic@ =~= seq!['c', 'a', 'l', 'l', 'r']);
    reveal_strlit("ret");
    assert(instructions_spec()[37].mnemonic@ =~= seq!['r', 'e', 't']);
    reveal_strlit("ld");
    assert(instructions_spec()[38].mnemonic@ =~= seq!['l', 'd']);
    reveal_strlit("ldw");
    assert(instructions_spec()[39].mnemonic@ =~= seq!['l', 'd', 'w']);
    reveal_strlit("ldwu");
    assert(instructions_spec()[40].mnemonic@ =~= seq!['l', 'd', 'w', 'u']);
    reveal_strlit("ldh");
    assert(instructions_spec()[41].mnemonic@ =~= seq!['l', 'd', 'h']);
    reveal_strlit("ldhu");
    assert(instructions_spec()[42].mnemonic@ =~= seq!['l', 'd', 'h', 'u']);
    reveal_strlit("ldb");
    assert(instructions_spec()[43].mnemonic@ =~= seq!['l', 'd', 'b']);
    reveal_strlit("ldbu");
    assert(instructions_spec()[44].mnemonic@ =~= seq!['l', 'd', 'b', 'u']);
    reveal_strlit("st");
    assert(instructions_spec()[45].mnemonic@ =~= seq!['s', 't']);
    reveal_strlit("stw");
    assert(instructions_spec()[46].mnemonic@ =~= seq!['s', 't', 'w']);
    reveal_strlit("sth");
    assert(instructions_spec()[47].mnemonic@ =~= seq!['s', 't', 'h']);
    reveal_strlit("stb");
    assert(instructions_spec()[48].mnemonic@ =~= seq!['s', 't', 'b']);
    reveal_strlit("halt");
    assert(instructions_spec()[49].mnemonic@ =~= seq!['h', 'a', 'l', 't']);
}

/// A row that carries neither the mnemonic `m` (it differs in length or at
/// position `i`) nor the pair (`op`, `fl`) is passed over by both lookups.
proof fn lemma_skip(m: Seq<char>, op: u8, fl: u8, j: int, i: int)
    requires
        0 <= j < instructions_spec().len(),
        instructions_spec()[j].mnemonic@.len() != m.len() || instructions_spec()[j].mnemonic@[i] != m[i],
        instructions_spec()[j].opcode != op || instructions_spec()[j].flags != fl,
    ensures
        find_mnemonic(instructions_spec(), m, j) == find_mnemonic(instructions_spec(), m, j + 1),
        find_opcode(instructions_spec(), op, fl, j) == find_opcode(instructions_spec(), op, fl, j + 1),
{
}

proof fn lemma_row_00()
    ensures
        row_found(0),
{
    lemma_table_rows();
    let m = seq!['n', 'o', 'p'];
    assert(spec_lower(m) =~= m);
}

proof fn lemma_row_01()
    ensures
        row_found(1),
{
    lemma_table_rows();
    let m = seq!['m', 'o', 'v'];
    lemma_skip(m, 0x02, 0, 0, 0);
    assert(spec_lower(m) =~= m);
}

proof fn lemma_row_02()
    ensures
        row_found(2),
{
    lemma_table_rows();
    let m = seq!['m', 'o', 'v', 'i'];
    lemma_skip(m, 0x03, 0, 0, 0);
    lemma_skip(m, 0x03, 0, 1, 0);
    assert(spec_lower(m) =~= m);
}

proof fn lemma_row_03()
    ensures
        row_found(3),
{
    lemma_table_rows();
    let m = seq!['a', 'd', 'd'];
    lemma_skip(m, 0x10, 0, 0, 0);
    lemma_skip(m, 0x10, 0, 1, 0);
    lemma_skip(m, 0x10, 0, 2, 0);
    assert(spec_lower(m) =~= m);
}

proof fn lemma_row_04()
    ensures
        row_found(4),
{
    lemma_table_rows();
    let m = seq!['s', 'u', 'b'];
    lemma_skip(m, 0x11, 0, 0, 0);
    lemma_skip(m, 0x11, 0, 1, 0);
    lemma_skip(m, 0x11, 0, 2, 0);
    lemma_skip(m, 0x11, 0, 3, 0);
    assert(spec_lower(m) =~= m);
}

proof fn lemma_row_05()
    ensures
        row_found(5),
{
    lemma_table_rows();
    let m = seq!['a', 'n', 'd'];
    lemma_skip(m, 0x12, 0, 0, 0);
    lemma_skip(m, 0x12, 0, 1, 0);
    lemma_skip(m, 0x12, 0, 2, 0);
    lemma_skip(m, 0x12, 0, 3, 1);
    lemma_skip(m, 0x12, 0, 4, 0);
    assert(spec_lower(m) =~= m);
}

proof fn lemma_row_06()
    ensures
        row_found(6),
{
    lemma_table_rows();
    let m = seq!['o', 'r'];
    lemma_skip(m, 0x13, 0, 0, 0);
    lemma_skip(m, 0x13, 0, 1, 0);
    lemma_skip(m, 0x13, 0, 2, 0);
    lemma_skip(m, 0x13, 0, 3, 0);
    lemma_skip(m, 0x13, 0, 4, 0);
    lemma_skip(m, 0x13, 0, 5, 0);
    assert(spec_lower(m) =~= m);
}

proof fn lemma_row_07()
    ensures
        row_found(7),
{
    lemma_table_rows();
    let m = seq!['x', 'o', 'r'];
    lemma_skip(m, 0x14, 0, 0, 0);
    lemma_skip(m, 0x14, 0, 1, 0);
    lemma_skip(m, 0x14, 0, 2, 0);
    lemma_skip(m, 0x14, 0, 3, 0);
    lemma_skip(m, 0x14, 0, 4, 0);
    lemma_skip(m, 0x14, 0, 5, 0);
    lemma_skip(m, 0x14, 0, 6, 0);
    assert(spec_lower(m) =~= m);
}

proof fn lemma_row_08()
    ensures
        row_found(8),
{
    lemma_table_rows();
    let m = seq!['n', 'o', 'r'];
    lemma_skip(m, 0x15, 0, 0, 2);
    lemma_skip(m, 0x15, 0, 1, 0);
    lemma_skip(m, 0x15, 0, 2, 0);
    lemma_skip(m, 0x15, 0, 3, 0);
    lemma_skip(m, 0x15, 0, 4, 0);
    lemma_skip(m, 0x15, 0, 5, 0);
    lemma_skip(m, 0x15, 0, 6, 0);
    lemma_skip(m, 0x15, 0, 7, 0);
    assert(spec_lower(m) =~= m);
}

proof fn lemma_row_09()
    ensures
        row_found(9),
{
    lemma_table_rows();
    let m = seq!['s', 'h', 'l'];
    lemma_skip(m, 0x16, 0, 0, 0);
    lemma_skip(m, 0x16, 0, 1, 0);
    lemma_skip(m, 0x16, 0, 2, 0);
    lemma_skip(m, 0x16, 0, 3, 0);
    lemma_skip(m, 0x16, 0, 4, 1);
    lemma_skip(m, 0x16, 0, 5, 0);
    lemma_skip(m, 0x16, 0, 6, 0);
    lemma_skip(m, 0x16, 0, 7, 0);
    lemma_skip(m, 0x16, 0, 8, 0);
    assert(spec_lower(m) =~= m);
}

proof fn lemma_row_10()
    ensures
        row_found(10),
{
    lemma_table_rows();
    let m = seq!['s', 'h', 'r'];
    lemma_skip(m, 0x17, 0, 0, 0);
    lemma_skip(m, 0x17, 0, 1, 0);
    lemma_skip(m, 0x17, 0, 2, 0);
    lemma_skip(m, 0x17, 0, 3, 0);
    lemma_skip(m, 0x17, 0, 4, 1);
    lemma_skip(m, 0x17, 0, 5, 0);
    lemma_skip(m, 0x17, 0, 6, 0);
    lemma_skip(m, 0x17, 0, 7, 0);
    lemma_skip(m, 0x17, 0, 8, 0);
    lemma_skip(m, 0x17, 0, 9, 2);
    assert(spec_lower(m) =~= m);
}

proof fn lemma_row_11()
    ensures
        row_found(11),
{
    lemma_table_rows();
    let m = seq!['s', 'a', 'r'];
    lemma_skip(m, 0x18, 0, 0, 0);
    lemma_skip(m, 0x18, 0, 1, 0);
    lemma_skip(m, 0x18, 0, 2, 0);
    lemma_skip(m, 0x18, 0, 3, 0);
    lemma_skip(m, 0x18, 0, 4, 1);
    lemma_skip(m, 0x18, 0, 5, 0);
    lemma_skip(m, 0x18, 0, 6, 0);
    lemma_skip(m, 0x18, 0, 7, 0);
    lemma_skip(m, 0x18, 0, 8, 0);
    lemma_skip(m, 0x18, 0, 9, 1);
    lemma_skip(m, 0x18, 0, 10, 1);
    assert(spec_lower(m) =~= m);
}

proof fn lemma_row_12()
    ensures
        row_found(12),
{
    lemma_table_rows();
    let m = seq!['a', 'd', 'd', 'i'];
    lemma_skip(m, 0x20, 0, 0, 0);
    lemma_skip(m, 0x20, 0, 1, 0);
    lemma_skip(m, 0x20, 0, 2, 0);
    lemma_skip(m, 0x20, 0, 3, 0);
    lemma_skip(m, 0x20, 0, 4, 0);
    lemma_skip(m, 0x20, 0, 5, 0);
    lemma_skip(m, 0x20, 0, 6, 0);
    lemma_skip(m, 0x20, 0, 7, 0);
    lemma_skip(m, 0x20, 0, 8, 0);
    lemma_skip(m, 0x20, 0, 9, 0);
    lemma_skip(m, 0x20, 0, 10, 0);
    lemma_skip(m, 0x20, 0, 11, 0);
    assert(spec_lower(m) =~= m);
}

proof fn lemma_row_13()
    ensures
        row_found(13),
{
    lemma_table_rows();
    let m = seq!['a', 'n', 'd', 'i'];
    lemma_skip(m, 0x21, 0, 0, 0);
    lemma_skip(m, 0x21, 0, 1, 0);
    lemma_skip(m, 0x21, 0, 2, 0);
    lemma_skip(m, 0x21, 0, 3, 0);
    lemma_skip(m, 0x21, 0, 4, 0);
    lemma_skip(m, 0x21, 0, 5, 0);
    lemma_skip(m, 0x21, 0, 6, 0);
    lemma_skip(m, 0x21, 0, 7, 0);
    lemma_skip(m, 0x21, 0, 8, 0);
    lemma_skip(m, 0x21, 0, 9, 0);
    lemma_skip(m, 0x21, 0, 10, 0);
    lemma_skip(m, 0x21, 0, 11, 0);
    lemma_skip(m, 0x21, 0, 12, 1);
    assert(spec_lower(m) =~= m);
}

proof fn lemma_row_14()
    ensures
        row_found(14),
{
    lemma_table_rows();
    let m = seq!['o', 'r', 'i'];
    lemma_skip(m, 0x22, 0, 0, 0);
    lemma_skip(m, 0x22, 0, 1, 0);
    lemma_skip(m, 0x22, 0, 2, 0);
    lemma_skip(m, 0x22, 0, 3, 0);
    lemma_skip(m, 0x22, 0, 4, 0);
    lemma_skip(m, 0x22, 0, 5, 0);
    lemma_skip(m, 0x22, 0, 6, 0);
    lemma_skip(m, 0x22, 0, 7, 0);
    lemma_skip(m, 0x22, 0, 8, 0);
    lemma_skip(m, 0x22, 0, 9, 0);
    lemma_skip(m, 0x22, 0, 10, 0);
    lemma_skip(m, 0x22, 0, 11, 0);
    lemma_skip(m, 0x22, 0, 12, 0);
    lemma_skip(m, 0x22, 0, 13, 0);
    assert(spec_lower(m) =~= m);
}

proof fn lemma_row_15()
    ensures
        row_found(15),
{
    lemma_table_rows();
    let m = seq!['x', 'o', 'r', 'i'];
    lemma_skip(m, 0x23, 0, 0, 0);
    lemma_skip(m, 0x23, 0, 1, 0);
    lemma_skip(m, 0x23, 0, 2, 0);
    lemma_skip(m, 0x23, 0, 3, 0);
    lemma_skip(m, 0x23, 0, 4, 0);
    lemma_skip(m, 0x23, 0, 5, 0);
    lemma_skip(m, 0x23, 0, 6, 0);
    lemma_skip(m, 0x23, 0, 7, 0);
    lemma_skip(m, 0x23, 0, 8, 0);
    lemma_skip(m, 0x23, 0, 9, 0);
    lemma_skip(m, 0x23, 0, 10, 0);
    lemma_skip(m, 0x23, 0, 11, 0);
    lemma_skip(m, 0x23, 0, 12, 0);
    lemma_skip(m, 0x23, 0, 13, 0);
    lemma_skip(m, 0x23, 0, 14, 0);
    assert(spec_lower(m) =~= m);
}

proof fn lemma_row_16()
    ensures
        row_found(16),
{
    lemma_table_rows();
    let m = seq!['s', 'h', 'l', 'i'];
    lemma_skip(m, 0x24, 0, 0, 0);
    lemma_skip(m, 0x24, 0, 1, 0);
    lemma_skip(m, 0x24, 0, 2, 0);
    lemma_skip(m, 0x24, 0, 3, 0);
    lemma_skip(m, 0x24, 0, 4, 0);
    lemma_skip(m, 0x24, 0, 5, 0);
    lemma_skip(m, 0x24, 0, 6, 0);
    lemma_skip(m, 0x24, 0, 7, 0);
    lemma_skip(m, 0x24, 0, 8, 0);
    lemma_skip(m, 0x24, 0, 9, 0);
    lemma_skip(m, 0x24, 0, 10, 0);
    lemma_skip(m, 0x24, 0, 11, 0);
    lemma_skip(m, 0x24, 0, 12, 0);
    lemma_skip(m, 0x24, 0, 13, 0);
    lemma_skip(m, 0x24, 0, 14, 0);
    lemma_skip(m, 0x24, 0, 15, 0);
    assert(spec_lower(m) =~= m);
}

proof fn lemma_row_17()
    ensures
        row_found(17),
{
    lemma_table_rows();
    let m = seq!['s', 'h', 'r', 'i'];
    lemma_skip(m, 0x25, 0, 0, 0);
    lemma_skip(m, 0x25, 0, 1, 0);
    lemma_skip(m, 0x25, 0, 2, 0);
    lemma_skip(m, 0x25, 0, 3, 0);
    lemma_skip(m, 0x25, 0, 4, 0);
    lemma_skip(m, 0x25, 0, 5, 0);
    lemma_skip(m, 0x25, 0, 6, 0);
    lemma_skip(m, 0x25, 0, 7, 0);
    lemma_skip(m, 0x25, 0, 8, 0);
    lemma_skip(m, 0x25, 0, 9, 0);
    lemma_skip(m, 0x25, 0, 10, 0);
    lemma_skip(m, 0x25, 0, 11, 0);
    lemma_skip(m, 0x25, 0, 12, 0);
    lemma_skip(m, 0x25, 0, 13, 0);
    lemma_skip(m, 0x25, 0, 14, 0);
    lemma_skip(m, 0x25, 0, 15, 0);
    lemma_skip(m, 0x25, 0, 16, 2);
    assert(spec_lower(m) =~= m);
}

proof fn lemma_row_18()
    ensures
        row_found(18),
{
    lemma_table_rows();
    let m = seq!['s', 'a', 'r', 'i'];
    lemma_skip(m, 0x26, 0, 0, 0);
    lemma_skip(m, 0x26, 0, 1, 0);
    lemma_skip(m, 0x26, 0, 2, 0);
    lemma_skip(m, 0x26, 0, 3, 0);
    lemma_skip(m, 0x26, 0, 4, 0);
    lemma_skip(m, 0x26, 0, 5, 0);
    lemma_skip(m, 0x26, 0, 6, 0);
    lemma_skip(m, 0x26, 0, 7, 0);
    lemma_skip(m, 0x26, 0, 8, 0);
    lemma_skip(m, 0x26, 0, 9, 0);
    lemma_skip(m, 0x26, 0, 10, 0);
    lemma_skip(m, 0x26, 0, 11, 0);
    lemma_skip(m, 0x26, 0, 12, 0);
    lemma_skip(m, 0x26, 0, 13, 0);
    lemma_skip(m, 0x26, 0, 14, 0);
    lemma_skip(m, 0x26, 0, 15, 0);
    lemma_skip(m, 0x26, 0, 16, 1);
    lemma_skip(m, 0x26, 0, 17, 1);
    assert(spec_lower(m) =~= m);
}

proof fn lemma_row_19()
    ensures
        row_found(19),
{
    lemma_table_rows();
    let m = seq!['s', 'l', 't'];
    lemma_skip(m, 0x30, 0, 0, 0);
    lemma_skip(m, 0x30, 0, 1, 0);
    lemma_skip(m, 0x30, 0, 2, 0);
    lemma_skip(m, 0x30, 0, 3, 0);
    lemma_skip(m, 0x30, 0, 4, 1);
    lemma_skip(m, 0x30, 0, 5, 0);
    lemma_skip(m, 0x30, 0, 6, 0);
    lemma_skip(m, 0x30, 0, 7, 0);
    lemma_skip(m, 0x30, 0, 8, 0);
    lemma_skip(m, 0x30, 0, 9, 1);
    lemma_skip(m, 0x30, 0, 10, 1);
    lemma_skip(m, 0x30, 0, 11, 1);
    lemma_skip(m, 0x30, 0, 12, 0);
    lemma_skip(m, 0x30, 0, 13, 0);
    lemma_skip(m, 0x30, 0, 14, 0);
    lemma_skip(m, 0x30, 0, 15, 0);
    lemma_skip(m, 0x30, 0, 16, 0);
    lemma_skip(m, 0x30, 0, 17, 0);
    lemma_skip(m, 0x30, 0, 18, 0);
    assert(spec_lower(m) =~= m);
}

proof fn lemma_row_20()
    ensures
        row_found(20),
{
    lemma_table_rows();
    let m = seq!['s', 'l', 't', 'u'];
    lemma_skip(m, 0x31, 0, 0, 0);
    lemma_skip(m, 0x31, 0, 1, 0);
    lemma_skip(m, 0x31, 0, 2, 0);
    lemma_skip(m, 0x31, 0, 3, 0);
    lemma_skip(m, 0x31, 0, 4, 0);
    lemma_skip(m, 0x31, 0, 5, 0);
    lemma_skip(m, 0x31, 0, 6, 0);
    lemma_skip(m, 0x31, 0, 7, 0);
    lemma_skip(m, 0x31, 0, 8, 0);
    lemma_skip(m, 0x31, 0, 9, 0);
    lemma_skip(m, 0x31, 0, 10, 0);
    lemma_skip(m, 0x31, 0, 11, 0);
    lemma_skip(m, 0x31, 0, 12, 0);
    lemma_skip(m, 0x31, 0, 13, 0);
    lemma_skip(m, 0x31, 0, 14, 0);
    lemma_skip(m, 0x31, 0, 15, 0);
    lemma_skip(m, 0x31, 0, 16, 1);
    lemma_skip(m, 0x31, 0, 17, 1);
    lemma_skip(m, 0x31, 0, 18, 1);
    lemma_skip(m, 0x31, 0, 19, 0);
    assert(spec_lower(m) =~= m);
}

proof fn lemma_row_21()
    ensures
        row_found(21),
{
    lemma_table_rows();
    let m = seq!['s', 'e', 'q'];
    lemma_skip(m, 0x32, 0, 0, 0);
    lemma_skip(m, 0x32, 0, 1, 0);
    lemma_skip(m, 0x32, 0, 2, 0);
    lemma_skip(m, 0x32, 0, 3, 0);
    lemma_skip(m, 0x32, 0, 4, 1);
    lemma_skip(m, 0x32, 0, 5, 0);
    lemma_skip(m, 0x32, 0, 6, 0);
    lemma_skip(m, 0x32, 0, 7, 0);
    lemma_skip(m, 0x32, 0, 8, 0);
    lemma_skip(m, 0x32, 0, 9, 1);
    lemma_skip(m, 0x32, 0, 10, 1);
    lemma_skip(m, 0x32, 0, 11, 1);
    lemma_skip(m, 0x32, 0, 12, 0);
    lemma_skip(m, 0x32, 0, 13, 0);
    lemma_skip(m, 0x32, 0, 14, 0);
    lemma_skip(m, 0x32, 0, 15, 0);
    lemma_skip(m, 0x32, 0, 16, 0);
    lemma_skip(m, 0x32, 0, 17, 0);
    lemma_skip(m, 0x32, 0, 18, 0);
    lemma_skip(m, 0x32, 0, 19, 1);
    lemma_skip(m, 0x32, 0, 20, 0);
    assert(spec_lower(m) =~= m);
}

proof fn lemma_row_22()
    ensures
        row_found(22),
{
    lemma_table_rows();
    let m = seq!['s', 'n', 'e'];
    lemma_skip(m, 0x33, 0, 0, 0);
    lemma_skip(m, 0x33, 0, 1, 0);
    lemma_skip(m, 0x33, 0, 2, 0);
    lemma_skip(m, 0x33, 0, 3, 0);
    lemma_skip(m, 0x33, 0, 4, 1);
    lemma_skip(m, 0x33, 0, 5, 0);
    lemma_skip(m, 0x33, 0, 6, 0);
    lemma_skip(m, 0x33, 0, 7, 0);
    lemma_skip(m, 0x33, 0, 8, 0);
    lemma_skip(m, 0x33, 0, 9, 1);
    lemma_skip(m, 0x33, 0, 10, 1);
    lemma_skip(m, 0x33, 0, 11, 1);
    lemma_skip(m, 0x33, 0, 12, 0);
    lemma_skip(m, 0x33, 0, 13, 0);
    lemma_skip(m, 0x33, 0, 14, 0);
    lemma_skip(m, 0x33, 0, 15, 0);
    lemma_skip(m, 0x33, 0, 16, 0);
    lemma_skip(m, 0x33, 0, 17, 0);
    lemma_skip(m, 0x33, 0, 18, 0);
    lemma_skip(m, 0x33, 0, 19, 1);
    lemma_skip(m, 0x33, 0, 20, 0);
    lemma_skip(m, 0x33, 0, 21, 1);
    assert(spec_lower(m) =~= m);
}

proof fn lemma_row_23()
    ensures
        row_found(23),
{
    lemma_table_rows();
    let m = seq!['s', 'l', 'e'];
    lemma_skip(m, 0x34, 0, 0, 0);
    lemma_skip(m, 0x34, 0, 1, 0);
    lemma_skip(m, 0x34, 0, 2, 0);
    lemma_skip(m, 0x34, 0, 3, 0);
    lemma_skip(m, 0x34, 0, 4, 1);
    lemma_skip(m, 0x34, 0, 5, 0);
    lemma_skip(m, 0x34, 0, 6, 0);
    lemma_skip(m, 0x34, 0, 7, 0);
    lemma_skip(m, 0x34, 0, 8, 0);
    lemma_skip(m, 0x34, 0, 9, 1);
    lemma_skip(m, 0x34, 0, 10, 1);
    lemma_skip(m, 0x34, 0, 11, 1);
    lemma_skip(m, 0x34, 0, 12, 0);
    lemma_skip(m, 0x34, 0, 13, 0);
    lemma_skip(m, 0x34, 0, 14, 0);
    lemma_skip(m, 0x34, 0, 15, 0);
    lemma_skip(m, 0x34, 0, 16, 0);
    lemma_skip(m, 0x34, 0, 17, 0);
    lemma_skip(m, 0x34, 0, 18, 0);
    lemma_skip(m, 0x34, 0, 19, 2);
    lemma_skip(m, 0x34, 0, 20, 0);
    lemma_skip(m, 0x34, 0, 21, 1);
    lemma_skip(m, 0x34, 0, 22, 1);
    assert(spec_lower(m) =~= m);
}

proof fn lemma_row_24()
    ensures
        row_found(24),
{
    lemma_table_rows();
    let m = seq!['s', 'l', 'e', 'u'];
    lemma_skip(m, 0x35, 0, 0, 0);
    lemma_skip(m, 0x35, 0, 1, 0);
    lemma_skip(m, 0x35, 0, 2, 0);
    lemma_skip(m, 0x35, 0, 3, 0);
    lemma_skip(m, 0x35, 0, 4, 0);
    lemma_skip(m, 0x35, 0, 5, 0);
    lemma_skip(m, 0x35, 0, 6, 0);
    lemma_skip(m, 0x35, 0, 7, 0);
    lemma_skip(m, 0x35, 0, 8, 0);
    lemma_skip(m, 0x35, 0, 9, 0);
    lemma_skip(m, 0x35, 0, 10, 0);
    lemma_skip(m, 0x35, 0, 11, 0);
    lemma_skip(m, 0x35, 0, 12, 0);
    lemma_skip(m, 0x35, 0, 13, 0);
    lemma_skip(m, 0x35, 0, 14, 0);
    lemma_skip(m, 0x35, 0, 15, 0);
    lemma_skip(m, 0x35, 0, 16, 1);
    lemma_skip(m, 0x35, 0, 17, 1);
    lemma_skip(m, 0x35, 0, 18, 1);
    lemma_skip(m, 0x35, 0, 19, 0);
    lemma_skip(m, 0x35, 0, 20, 2);
    lemma_skip(m, 0x35, 0, 21, 0);
    lemma_skip(m, 0x35, 0, 22, 0);
    lemma_skip(m, 0x35, 0, 23, 0);
    assert(spec_lower(m) =~= m);
}

proof fn lemma_row_25()
    ensures
        row_found(25),
{
    lemma_table_rows();
    let m = seq!['s', 'g', 'e'];
    lemma_skip(m, 0x36, 0, 0, 0);
    lemma_skip(m, 0x36, 0, 1, 0);
    lemma_skip(m, 0x36, 0, 2, 0);
    lemma_skip(m, 0x36, 0, 3, 0);
    lemma_skip(m, 0x36, 0, 4, 1);
    lemma_skip(m, 0x36, 0, 5, 0);
    lemma_skip(m, 0x36, 0, 6, 0);
    lemma_skip(m, 0x36, 0, 7, 0);
    lemma_skip(m, 0x36, 0, 8, 0);
    lemma_skip(m, 0x36, 0, 9, 1);
    lemma_skip(m, 0x36, 0, 10, 1);
    lemma_skip(m, 0x36, 0, 11, 1);
    lemma_skip(m, 0x36, 0, 12, 0);
    lemma_skip(m, 0x36, 0, 13, 0);
    lemma_skip(m, 0x36, 0, 14, 0);
    lemma_skip(m, 0x36, 0, 15, 0);
    lemma_skip(m, 0x36, 0, 16, 0);
    lemma_skip(m, 0x36, 0, 17, 0);
    lemma_skip(m, 0x36, 0, 18, 0);
    lemma_skip(m, 0x36, 0, 19, 1);
    lemma_skip(m, 0x36, 0, 20, 0);
    lemma_skip(m, 0x36, 0, 21, 1);
    lemma_skip(m, 0x36, 0, 22, 1);
    lemma_skip(m, 0x36, 0, 23, 1);
    lemma_skip(m, 0x36, 0, 24, 0);
    assert(spec_lower(m) =~= m);
}

proof fn lemma_row_26()
    ensures
        row_found(26),
{
    lemma_table_rows();
    let m = seq!['s', 'g', 'e', 'u'];
    lemma_skip(m, 0x37, 0, 0, 0);
    lemma_skip(m, 0x37, 0, 1, 0);
    lemma_skip(m, 0x37, 0, 2, 0);
    lemma_skip(m, 0x37, 0, 3, 0);
    lemma_skip(m, 0x37, 0, 4, 0);
    lemma_skip(m, 0x37, 0, 5, 0);
    lemma_skip(m, 0x37, 0, 6, 0);
    lemma_skip(m, 0x37, 0, 7, 0);
    lemma_skip(m, 0x37, 0, 8, 0);
    lemma_skip(m, 0x37, 0, 9, 0);
    lemma_skip(m, 0x37, 0, 10, 0);
    lemma_skip(m, 0x37, 0, 11, 0);
    lemma_skip(m, 0x37, 0, 12, 0);
    lemma_skip(m, 0x37, 0, 13, 0);
    lemma_skip(m, 0x37, 0, 14, 0);
    lemma_skip(m, 0x37, 0, 15, 0);
    lemma_skip(m, 0x37, 0, 16, 1);
    lemma_skip(m, 0x37, 0, 17, 1);
    lemma_skip(m, 0x37, 0, 18, 1);
    lemma_skip(m, 0x37, 0, 19, 0);
    lemma_skip(m, 0x37, 0, 20, 1);
    lemma_skip(m, 0x37, 0, 21, 0);
    lemma_skip(m, 0x37, 0, 22, 0);
    lemma_skip(m, 0x37, 0, 23, 0);
    lemma_skip(m, 0x37, 0, 24, 1);
    lemma_skip(m, 0x37, 0, 25, 0);
    assert(spec_lower(m) =~= m);
}

proof fn lemma_row_27()
    ensures
        row_found(27),
{
    lemma_table_rows();
    let m = seq!['b', 'e', 'q'];
    lemma_skip(m, 0x40, 0, 0, 0);
    lemma_skip(m, 0x40, 0, 1, 0);
    lemma_skip(m, 0x40, 0, 2, 0);
    lemma_skip(m, 0x40, 0, 3, 0);
    lemma_skip(m, 0x40, 0, 4, 0);
    lemma_skip(m, 0x40, 0, 5, 0);
    lemma_skip(m, 0x40, 0, 6, 0);
    lemma_skip(m, 0x40, 0, 7, 0);
    lemma_skip(m, 0x40, 0, 8, 0);
    lemma_skip(m, 0x40, 0, 9, 0);
    lemma_skip(m, 0x40, 0, 10, 0);
    lemma_skip(m, 0x40, 0, 11, 0);
    lemma_skip(m, 0x40, 0, 12, 0);
    lemma_skip(m, 0x40, 0, 13, 0);
    lemma_skip(m, 0x40, 0, 14, 0);
    lemma_skip(m, 0x40, 0, 15, 0);
    lemma_skip(m, 0x40, 0, 16, 0);
    lemma_skip(m, 0x40, 0, 17, 0);
    lemma_skip(m, 0x40, 0, 18, 0);
    lemma_skip(m, 0x40, 0, 19, 0);
    lemma_skip(m, 0x40, 0, 20, 0);
    lemma_skip(m, 0x40, 0, 21, 0);
    lemma_skip(m, 0x40, 0, 22, 0);
    lemma_skip(m, 0x40, 0, 23, 0);
    lemma_skip(m, 0x40, 0, 24, 0);
    lemma_skip(m, 0x40, 0, 25, 0);
    lemma_skip(m, 0x40, 0, 26, 0);
    assert(spec_lower(m) =~= m);
}

proof fn lemma_row_28()
    ensures
        row_found(28),
{
    lemma_table_rows();
    let m = seq!['b', 'n', 'e'];
    lemma_skip(m, 0x41, 0, 0, 0);
    lemma_skip(m, 0x41, 0, 1, 0);
    lemma_skip(m, 0x41, 0, 2, 0);
    lemma_skip(m, 0x41, 0, 3, 0);
    lemma_skip(m, 0x41, 0, 4, 0);
    lemma_skip(m, 0x41, 0, 5, 0);
    lemma_skip(m, 0x41, 0, 6, 0);
    lemma_skip(m, 0x41, 0, 7, 0);
    lemma_skip(m, 0x41, 0, 8, 0);
    lemma_skip(m, 0x41, 0, 9, 0);
    lemma_skip(m, 0x41, 0, 10, 0);
    lemma_skip(m, 0x41, 0, 11, 0);
    lemma_skip(m, 0x41, 0, 12, 0);
    lemma_skip(m, 0x41, 0, 13, 0);
    lemma_skip(m, 0x41, 0, 14, 0);
    lemma_skip(m, 0x41, 0, 15, 0);
    lemma_skip(m, 0x41, 0, 16, 0);
    lemma_skip(m, 0x41, 0, 17, 0);
    lemma_skip(m, 0x41, 0, 18, 0);
    lemma_skip(m, 0x41, 0, 19, 0);
    lemma_skip(m, 0x41, 0, 20, 0);
    lemma_skip(m, 0x41, 0, 21, 0);
    lemma_skip(m, 0x41, 0, 22, 0);
    lemma_skip(m, 0x41, 0, 23, 0);
    lemma_skip(m, 0x41, 0, 24, 0);
    lemma_skip(m, 0x41, 0, 25, 0);
    lemma_skip(m, 0x41, 0, 26, 0);
    lemma_skip(m, 0x41, 0, 27, 1);
    assert(spec_lower(m) =~= m);
}

proof fn lemma_row_29()
    ensures
        row_found(29),
{
    lemma_table_rows();
    let m = seq!['b', 'l', 't'];
    lemma_skip(m, 0x42, 0, 0, 0);
    lemma_skip(m, 0x42, 0, 1, 0);
    lemma_skip(m, 0x42, 0, 2, 0);
    lemma_skip(m, 0x42, 0, 3, 0);
    lemma_skip(m, 0x42, 0, 4, 0);
    lemma_skip(m, 0x42, 0, 5, 0);
    lemma_skip(m, 0x42, 0, 6, 0);
    lemma_skip(m, 0x42, 0, 7, 0);
    lemma_skip(m, 0x42, 0, 8, 0);
    lemma_skip(m, 0x42, 0, 9, 0);
    lemma_skip(m, 0x42, 0, 10, 0);
    lemma_skip(m, 0x42, 0, 11, 0);
    lemma_skip(m, 0x42, 0, 12, 0);
    lemma_skip(m, 0x42, 0, 13, 0);
    lemma_skip(m, 0x42, 0, 14, 0);
    lemma_skip(m, 0x42, 0, 15, 0);
    lemma_skip(m, 0x42, 0, 16, 0);
    lemma_skip(m, 0x42, 0, 17, 0);
    lemma_skip(m, 0x42, 0, 18, 0);
    lemma_skip(m, 0x42, 0, 19, 0);
    lemma_skip(m, 0x42, 0, 20, 0);
    lemma_skip(m, 0x42, 0, 21, 0);
    lemma_skip(m, 0x42, 0, 22, 0);
    lemma_skip(m, 0x42, 0, 23, 0);
    lemma_skip(m, 0x42, 0, 24, 0);
    lemma_skip(m, 0x42, 0, 25, 0);
    lemma_skip(m, 0x42, 0, 26, 0);
    lemma_skip(m, 0x42, 0, 27, 1);
    lemma_skip(m, 0x42, 0, 28, 1);
    assert(spec_lower(m) =~= m);
}

proof fn lemma_row_30()
    ensures
        row_found(30),
{
    lemma_table_rows();
    let m = seq!['b', 'l', 't', 'u'];
    lemma_skip(m, 0x43, 0, 0, 0);
    lemma_skip(m, 0x43, 0, 1, 0);
    lemma_skip(m, 0x43, 0, 2, 0);
    lemma_skip(m, 0x43, 0, 3, 0);
    lemma_skip(m, 0x43, 0, 4, 0);
    lemma_skip(m, 0x43, 0, 5, 0);
    lemma_skip(m, 0x43, 0, 6, 0);
    lemma_skip(m, 0x43, 0, 7, 0);
    lemma_skip(m, 0x43, 0, 8, 0);
    lemma_skip(m, 0x43, 0, 9, 0);
    lemma_skip(m, 0x43, 0, 10, 0);
    lemma_skip(m, 0x43, 0, 11, 0);
    lemma_skip(m, 0x43, 0, 12, 0);
    lemma_skip(m, 0x43, 0, 13, 0);
    lemma_skip(m, 0x43, 0, 14, 0);
    lemma_skip(m, 0x43, 0, 15, 0);
    lemma_skip(m, 0x43, 0, 16, 0);
    lemma_skip(m, 0x43, 0, 17, 0);
    lemma_skip(m, 0x43, 0, 18, 0);
    lemma_skip(m, 0x43, 0, 19, 0);
    lemma_skip(m, 0x43, 0, 20, 0);
    lemma_skip(m, 0x43, 0, 21, 0);
    lemma_skip(m, 0x43, 0, 22, 0);
    lemma_skip(m, 0x43, 0, 23, 0);
    lemma_skip(m, 0x43, 0, 24, 0);
    lemma_skip(m, 0x43, 0, 25, 0);
    lemma_skip(m, 0x43, 0, 26, 0);
    lemma_skip(m, 0x43, 0, 27, 0);
    lemma_skip(m, 0x43, 0, 28, 0);
    lemma_skip(m, 0x43, 0, 29, 0);
    assert(spec_lower(m) =~= m);
}

proof fn lemma_row_31()
    ensures
        row_found(31),
{
    lemma_table_rows();
    let m = seq!['b', 'g', 'e'];
    lemma_skip(m, 0x44, 0, 0, 0);
    lemma_skip(m, 0x44, 0, 1, 0);
    lemma_skip(m, 0x44, 0, 2, 0);
    lemma_skip(m, 0x44, 0, 3, 0);
    lemma_skip(m, 0x44, 0, 4, 0);
    lemma_skip(m, 0x44, 0, 5, 0);
    lemma_skip(m, 0x44, 0, 6, 0);
    lemma_skip(m, 0x44, 0, 7, 0);
    lemma_skip(m, 0x44, 0, 8, 0);
    lemma_skip(m, 0x44, 0, 9, 0);
    lemma_skip(m, 0x44, 0, 10, 0);
    lemma_skip(m, 0x44, 0, 11, 0);
    lemma_skip(m, 0x44, 0, 12, 0);
    lemma_skip(m, 0x44, 0, 13, 0);
    lemma_skip(m, 0x44, 0, 14, 0);
    lemma_skip(m, 0x44, 0, 15, 0);
    lemma_skip(m, 0x44, 0, 16, 0);
    lemma_skip(m, 0x44, 0, 17, 0);
    lemma_skip(m, 0x44, 0, 18, 0);
    lemma_skip(m, 0x44, 0, 19, 0);
    lemma_skip(m, 0x44, 0, 20, 0);
    lemma_skip(m, 0x44, 0, 21, 0);
    lemma_skip(m, 0x44, 0, 22, 0);
    lemma_skip(m, 0x44, 0, 23, 0);
    lemma_skip(m, 0x44, 0, 24, 0);
    lemma_skip(m, 0x44, 0, 25, 0);
    lemma_skip(m, 0x44, 0, 26, 0);
    lemma_skip(m, 0x44, 0, 27, 1);
    lemma_skip(m, 0x44, 0, 28, 1);
    lemma_skip(m, 0x44, 0, 29, 1);
    lemma_skip(m, 0x44, 0, 30, 0);
    assert(spec_lower(m) =~= m);
}

proof fn lemma_row_32()
    ensures
        row_found(32),
{
    lemma_table_rows();
    let m = seq!['b', 'g', 'e', 'u'];
    lemma_skip(m, 0x45, 0, 0, 0);
    lemma_skip(m, 0x45, 0, 1, 0);
    lemma_skip(m, 0x45, 0, 2, 0);
    lemma_skip(m, 0x45, 0, 3, 0);
    lemma_skip(m, 0x45, 0, 4, 0);
    lemma_skip(m, 0x45, 0, 5, 0);
    lemma_skip(m, 0x45, 0, 6, 0);
    lemma_skip(m, 0x45, 0, 7, 0);
    lemma_skip(m, 0x45, 0, 8, 0);
    lemma_skip(m, 0x45, 0, 9, 0);
    lemma_skip(m, 0x45, 0, 10, 0);
    lemma_skip(m, 0x45, 0, 11, 0);
    lemma_skip(m, 0x45, 0, 12, 0);
    lemma_skip(m, 0x45, 0, 13, 0);
    lemma_skip(m, 0x45, 0, 14, 0);
    lemma_skip(m, 0x45, 0, 15, 0);
    lemma_skip(m, 0x45, 0, 16, 0);
    lemma_skip(m, 0x45, 0, 17, 0);
    lemma_skip(m, 0x45, 0, 18, 0);
    lemma_skip(m, 0x45, 0, 19, 0);
    lemma_skip(m, 0x45, 0, 20, 0);
    lemma_skip(m, 0x45, 0, 21, 0);
    lemma_skip(m, 0x45, 0, 22, 0);
    lemma_skip(m, 0x45, 0, 23, 0);
    lemma_skip(m, 0x45, 0, 24, 0);
    lemma_skip(m, 0x45, 0, 25, 0);
    lemma_skip(m, 0x45, 0, 26, 0);
    lemma_skip(m, 0x45, 0, 27, 0);
    lemma_skip(m, 0x45, 0, 28, 0);
    lemma_skip(m, 0x45, 0, 29, 0);
    lemma_skip(m, 0x45, 0, 30, 1);
    lemma_skip(m, 0x45, 0, 31, 0);
    assert(spec_lower(m) =~= m);
}

proof fn lemma_row_33()
    ensures
        row_found(33),
{
    lemma_table_rows();
    let m = seq!['j', 'm', 'p'];
    lemma_skip(m, 0x48, 0, 0, 0);
    lemma_skip(m, 0x48, 0, 1, 0);
    lemma_skip(m, 0x48, 0, 2, 0);
    lemma_skip(m, 0x48, 0, 3, 0);
    lemma_skip(m, 0x48, 0, 4, 0);
    lemma_skip(m, 0x48, 0, 5, 0);
    lemma_skip(m, 0x48, 0, 6, 0);
    lemma_skip(m, 0x48, 0, 7, 0);
    lemma_skip(m, 0x48, 0, 8, 0);
    lemma_skip(m, 0x48, 0, 9, 0);
    lemma_skip(m, 0x48, 0, 10, 0);
    lemma_skip(m, 0x48, 0, 11, 0);
    lemma_skip(m, 0x48, 0, 12, 0);
    lemma_skip(m, 0x48, 0, 13, 0);
    lemma_skip(m, 0x48, 0, 14, 0);
    lemma_skip(m, 0x48, 0, 15, 0);
    lemma_skip(m, 0x48, 0, 16, 0);
    lemma_skip(m, 0x48, 0, 17, 0);
    lemma_skip(m, 0x48, 0, 18, 0);
    lemma_skip(m, 0x48, 0, 19, 0);
    lemma_skip(m, 0x48, 0, 20, 0);
    lemma_skip(m, 0x48, 0, 21, 0);
    lemma_skip(m, 0x48, 0, 22, 0);
    lemma_skip(m, 0x48, 0, 23, 0);
    lemma_skip(m, 0x48, 0, 24, 0);
    lemma_skip(m, 0x48, 0, 25, 0);
    lemma_skip(m, 0x48, 0, 26, 0);
    lemma_skip(m, 0x48, 0, 27, 0);
    lemma_skip(m, 0x48, 0, 28, 0);
    lemma_skip(m, 0x48, 0, 29, 0);
    lemma_skip(m, 0x48, 0, 30, 0);
    lemma_skip(m, 0x48, 0, 31, 0);
    lemma_skip(m, 0x48, 0, 32, 0);
    assert(spec_lower(m) =~= m);
}

proof fn lemma_row_34()
    ensures
        row_found(34),
{
    lemma_table_rows();
    let m = seq!['j', 'r'];
    lemma_skip(m, 0x49, 0, 0, 0);
    lemma_skip(m, 0x49, 0, 1, 0);
    lemma_skip(m, 0x49, 0, 2, 0);
    lemma_skip(m, 0x49, 0, 3, 0);
    lemma_skip(m, 0x49, 0, 4, 0);
    lemma_skip(m, 0x49, 0, 5, 0);
    lemma_skip(m, 0x49, 0, 6, 0);
    lemma_skip(m, 0x49, 0, 7, 0);
    lemma_skip(m, 0x49, 0, 8, 0);
    lemma_skip(m, 0x49, 0, 9, 0);
    lemma_skip(m, 0x49, 0, 10, 0);
    lemma_skip(m, 0x49, 0, 11, 0);
    lemma_skip(m, 0x49, 0, 12, 0);
    lemma_skip(m, 0x49, 0, 13, 0);
    lemma_skip(m, 0x49, 0, 14, 0);
    lemma_skip(m, 0x49, 0, 15, 0);
    lemma_skip(m, 0x49, 0, 16, 0);
    lemma_skip(m, 0x49, 0, 17, 0);
    lemma_skip(m, 0x49, 0, 18, 0);
    lemma_skip(m, 0x49, 0, 19, 0);
    lemma_skip(m, 0x49, 0, 20, 0);
    lemma_skip(m, 0x49, 0, 21, 0);
    lemma_skip(m, 0x49, 0, 22, 0);
    lemma_skip(m, 0x49, 0, 23, 0);
    lemma_skip(m, 0x49, 0, 24, 0);
    lemma_skip(m, 0x49, 0, 25, 0);
    lemma_skip(m, 0x49, 0, 26, 0);
    lemma_skip(m, 0x49, 0, 27, 0);
    lemma_skip(m, 0x49, 0, 28, 0);
    lemma_skip(m, 0x49, 0, 29, 0);
    lemma_skip(m, 0x49, 0, 30, 0);
    lemma_skip(m, 0x49, 0, 31, 0);
    lemma_skip(m, 0x49, 0, 32, 0);
    lemma_skip(m, 0x49, 0, 33, 0);
    assert(spec_lower(m) =~= m);
}

proof fn lemma_row_35()
    ensures
        row_found(35),
{
    lemma_table_rows();
    let m = seq!['c', 'a', 'l', 'l'];
    lemma_skip(m, 0x4A, 0, 0, 0);
    lemma_skip(m, 0x4A, 0, 1, 0);
    lemma_skip(m, 0x4A, 0, 2, 0);
    lemma_skip(m, 0x4A, 0, 3, 0);
    lemma_skip(m, 0x4A, 0, 4, 0);
    lemma_skip(m, 0x4A, 0, 5, 0);
    lemma_skip(m, 0x4A, 0, 6, 0);
    lemma_skip(m, 0x4A, 0, 7, 0);
    lemma_skip(m, 0x4A, 0, 8, 0);
    lemma_skip(m, 0x4A, 0, 9, 0);
    lemma_skip(m, 0x4A, 0, 10, 0);
    lemma_skip(m, 0x4A, 0, 11, 0);
    lemma_skip(m, 0x4A, 0, 12, 0);
    lemma_skip(m, 0x4A, 0, 13, 0);
    lemma_skip(m, 0x4A, 0, 14, 0);
    lemma_skip(m, 0x4A, 0, 15, 0);
    lemma_skip(m, 0x4A, 0, 16, 0);
    lemma_skip(m, 0x4A, 0, 17, 0);
    lemma_skip(m, 0x4A, 0, 18, 0);
    lemma_skip(m, 0x4A, 0, 19, 0);
    lemma_skip(m, 0x4A, 0, 20, 0);
    lemma_skip(m, 0x4A, 0, 21, 0);
    lemma_skip(m, 0x4A, 0, 22, 0);
    lemma_skip(m, 0x4A, 0, 23, 0);
    lemma_skip(m, 0x4A, 0, 24, 0);
    lemma_skip(m, 0x4A, 0, 25, 0);
    lemma_skip(m, 0x4A, 0, 26, 0);
    lemma_skip(m, 0x4A, 0, 27, 0);
    lemma_skip(m, 0x4A, 0, 28, 0);
    lemma_skip(m, 0x4A, 0, 29, 0);
    lemma_skip(m, 0x4A, 0, 30, 0);
    lemma_skip(m, 0x4A, 0, 31, 0);
    lemma_skip(m, 0x4A, 0, 32, 0);
    lemma_skip(m, 0x4A, 0, 33, 0);
    lemma_skip(m, 0x4A, 0, 34, 0);
    assert(spec_lower(m) =~= m);
}

proof fn lemma_row_36()
    ensures
        row_found(36),
{
    lemma_table_rows();
    let m = seq!['c', 'a', 'l', 'l', 'r'];
    lemma_skip(m, 0x4B, 0, 0, 0);
    lemma_skip(m, 0x4B, 0, 1, 0);
    lemma_skip(m, 0x4B, 0, 2, 0);
    lemma_skip(m, 0x4B, 0, 3, 0);
    lemma_skip(m, 0x4B, 0, 4, 0);
    lemma_skip(m, 0x4B, 0, 5, 0);
    lemma_skip(m, 0x4B, 0, 6, 0);
    lemma_skip(m, 0x4B, 0, 7, 0);
    lemma_skip(m, 0x4B, 0, 8, 0);
    lemma_skip(m, 0x4B, 0, 9, 0);
    lemma_skip(m, 0x4B, 0, 10, 0);
    lemma_skip(m, 0x4B, 0, 11, 0);
    lemma_skip(m, 0x4B, 0, 12, 0);
    lemma_skip(m, 0x4B, 0, 13, 0);
    lemma_skip(m, 0x4B, 0, 14, 0);
    lemma_skip(m, 0x4B, 0, 15, 0);
    lemma_skip(m, 0x4B, 0, 16, 0);
    lemma_skip(m, 0x4B, 0, 17, 0);
    lemma_skip(m, 0x4B, 0, 18, 0);
    lemma_skip(m, 0x4B, 0, 19, 0);
    lemma_skip(m, 0x4B, 0, 20, 0);
    lemma_skip(m, 0x4B, 0, 21, 0);
    lemma_skip(m, 0x4B, 0, 22, 0);
    lemma_skip(m, 0x4B, 0, 23, 0);
    lemma_skip(m, 0x4B, 0, 24, 0);
    lemma_skip(m, 0x4B, 0, 25, 0);
    lemma_skip(m, 0x4B, 0, 26, 0);
    lemma_skip(m, 0x4B, 0, 27, 0);
    lemma_skip(m, 0x4B, 0, 28, 0);
    lemma_skip(m, 0x4B, 0, 29, 0);
    lemma_skip(m, 0x4B, 0, 30, 0);
    lemma_skip(m, 0x4B, 0, 31, 0);
    lemma_skip(m, 0x4B, 0, 32, 0);
    lemma_skip(m, 0x4B, 0, 33, 0);
    lemma_skip(m, 0x4B, 0, 34, 0);
    lemma_skip(m, 0x4B, 0, 35, 0);
    assert(spec_lower(m) =~= m);
}

proof fn lemma_row_37()
    ensures
        row_found(37),
{
    lemma_table_rows();
    let m = seq!['r', 'e', 't'];
    lemma_skip(m, 0x4C, 0, 0, 0);
    lemma_skip(m, 0x4C, 0, 1, 0);
    lemma_skip(m, 0x4C, 0, 2, 0);
    lemma_skip(m, 0x4C, 0, 3, 0);
    lemma_skip(m, 0x4C, 0, 4, 0);
    lemma_skip(m, 0x4C, 0, 5, 0);
    lemma_skip(m, 0x4C, 0, 6, 0);
    lemma_skip(m, 0x4C, 0, 7, 0);
    lemma_skip(m, 0x4C, 0, 8, 0);
    lemma_skip(m, 0x4C, 0, 9, 0);
    lemma_skip(m, 0x4C, 0, 10, 0);
    lemma_skip(m, 0x4C, 0, 11, 0);
    lemma_skip(m, 0x4C, 0, 12, 0);
    lemma_skip(m, 0x4C, 0, 13, 0);
    lemma_skip(m, 0x4C, 0, 14, 0);
    lemma_skip(m, 0x4C, 0, 15, 0);
    lemma_skip(m, 0x4C, 0, 16, 0);
    lemma_skip(m, 0x4C, 0, 17, 0);
    lemma_skip(m, 0x4C, 0, 18, 0);
    lemma_skip(m, 0x4C, 0, 19, 0);
    lemma_skip(m, 0x4C, 0, 20, 0);
    lemma_skip(m, 0x4C, 0, 21, 0);
    lemma_skip(m, 0x4C, 0, 22, 0);
    lemma_skip(m, 0x4C, 0, 23, 0);
    lemma_skip(m, 0x4C, 0, 24, 0);
    lemma_skip(m, 0x4C, 0, 25, 0);
    lemma_skip(m, 0x4C, 0, 26, 0);
    lemma_skip(m, 0x4C, 0, 27, 0);
    lemma_skip(m, 0x4C, 0, 28, 0);
    lemma_skip(m, 0x4C, 0, 29, 0);
    lemma_skip(m, 0x4C, 0, 30, 0);
    lemma_skip(m, 0x4C, 0, 31, 0);
    lemma_skip(m, 0x4C, 0, 32, 0);
    lemma_skip(m, 0x4C, 0, 33, 0);
    lemma_skip(m, 0x4C, 0, 34, 0);
    lemma_skip(m, 0x4C, 0, 35, 0);
    lemma_skip(m, 0x4C, 0, 36, 0);
    assert(spec_lower(m) =~= m);
}

proof fn lemma_row_38()
    ensures
        row_found(38),
{
    lemma_table_rows();
    let m = seq!['l', 'd'];
    lemma_skip(m, 0x50, 0, 0, 0);
    lemma_skip(m, 0x50, 0, 1, 0);
    lemma_skip(m, 0x50, 0, 2, 0);
    lemma_skip(m, 0x50, 0, 3, 0);
    lemma_skip(m, 0x50, 0, 4, 0);
    lemma_skip(m, 0x50, 0, 5, 0);
    lemma_skip(m, 0x50, 0, 6, 0);
    lemma_skip(m, 0x50, 0, 7, 0);
    lemma_skip(m, 0x50, 0, 8, 0);
    lemma_skip(m, 0x50, 0, 9, 0);
    lemma_skip(m, 0x50, 0, 10, 0);
    lemma_skip(m, 0x50, 0, 11, 0);
    lemma_skip(m, 0x50, 0, 12, 0);
    lemma_skip(m, 0x50, 0, 13, 0);
    lemma_skip(m, 0x50, 0, 14, 0);
    lemma_skip(m, 0x50, 0, 15, 0);
    lemma_skip(m, 0x50, 0, 16, 0);
    lemma_skip(m, 0x50, 0, 17, 0);
    lemma_skip(m, 0x50, 0, 18, 0);
    lemma_skip(m, 0x50, 0, 19, 0);
    lemma_skip(m, 0x50, 0, 20, 0);
    lemma_skip(m, 0x50, 0, 21, 0);
    lemma_skip(m, 0x50, 0, 22, 0);
    lemma_skip(m, 0x50, 0, 23, 0);
    lemma_skip(m, 0x50, 0, 24, 0);
    lemma_skip(m, 0x50, 0, 25, 0);
    lemma_skip(m, 0x50, 0, 26, 0);
    lemma_skip(m, 0x50, 0, 27, 0);
    lemma_skip(m, 0x50, 0, 28, 0);
    lemma_skip(m, 0x50, 0, 29, 0);
    lemma_skip(m, 0x50, 0, 30, 0);
    lemma_skip(m, 0x50, 0, 31, 0);
    lemma_skip(m, 0x50, 0, 32, 0);
    lemma_skip(m, 0x50, 0, 33, 0);
    lemma_skip(m, 0x50, 0, 34, 0);
    lemma_skip(m, 0x50, 0, 35, 0);
    lemma_skip(m, 0x50, 0, 36, 0);
    lemma_skip(m, 0x50, 0, 37, 0);
    assert(spec_lower(m) =~= m);
}

proof fn lemma_row_39()
    ensures
        row_found(39),
{
    lemma_table_rows();
    let m = seq!['l', 'd', 'w'];
    lemma_skip(m, 0x51, 1, 0, 0);
    lemma_skip(m, 0x51, 1, 1, 0);
    lemma_skip(m, 0x51, 1, 2, 0);
    lemma_skip(m, 0x51, 1, 3, 0);
    lemma_skip(m, 0x51, 1, 4, 0);
    lemma_skip(m, 0x51, 1, 5, 0);
    lemma_skip(m, 0x51, 1, 6, 0);
    lemma_skip(m, 0x51, 1, 7, 0);
    lemma_skip(m, 0x51, 1, 8, 0);
    lemma_skip(m, 0x51, 1, 9, 0);
    lemma_skip(m, 0x51, 1, 10, 0);
    lemma_skip(m, 0x51, 1, 11, 0);
    lemma_skip(m, 0x51, 1, 12, 0);
    lemma_skip(m, 0x51, 1, 13, 0);
    lemma_skip(m, 0x51, 1, 14, 0);
    lemma_skip(m, 0x51, 1, 15, 0);
    lemma_skip(m, 0x51, 1, 16, 0);
    lemma_skip(m, 0x51, 1, 17, 0);
    lemma_skip(m, 0x51, 1, 18, 0);
    lemma_skip(m, 0x51, 1, 19, 0);
    lemma_skip(m, 0x51, 1, 20, 0);
    lemma_skip(m, 0x51, 1, 21, 0);
    lemma_skip(m, 0x51, 1, 22, 0);
    lemma_skip(m, 0x51, 1, 23, 0);
    lemma_skip(m, 0x51, 1, 24, 0);
    lemma_skip(m, 0x51, 1, 25, 0);
    lemma_skip(m, 0x51, 1, 26, 0);
    lemma_skip(m, 0x51, 1, 27, 0);
    lemma_skip(m, 0x51, 1, 28, 0);
    lemma_skip(m, 0x51, 1, 29, 0);
    lemma_skip(m, 0x51, 1, 30, 0);
    lemma_skip(m, 0x51, 1, 31, 0);
    lemma_skip(m, 0x51, 1, 32, 0);
    lemma_skip(m, 0x51, 1, 33, 0);
    lemma_skip(m, 0x51, 1, 34, 0);
    lemma_skip(m, 0x51, 1, 35, 0);
    lemma_skip(m, 0x51, 1, 36, 0);
    lemma_skip(m, 0x51, 1, 37, 0);
    lemma_skip(m, 0x51, 1, 38, 0);
    assert(spec_lower(m) =~= m);
}

proof fn lemma_row_40()
    ensures
        row_found(40),
{
    lemma_table_rows();
    let m = seq!['l', 'd', 'w', 'u'];
    lemma_skip(m, 0x51, 0, 0, 0);
    lemma_skip(m, 0x51, 0, 1, 0);
    lemma_skip(m, 0x51, 0, 2, 0);
    lemma_skip(m, 0x51, 0, 3, 0);
    lemma_skip(m, 0x51, 0, 4, 0);
    lemma_skip(m, 0x51, 0, 5, 0);
    lemma_skip(m, 0x51, 0, 6, 0);
    lemma_skip(m, 0x51, 0, 7, 0);
    lemma_skip(m, 0x51, 0, 8, 0);
    lemma_skip(m, 0x51, 0, 9, 0);
    lemma_skip(m, 0x51, 0, 10, 0);
    lemma_skip(m, 0x51, 0, 11, 0);
    lemma_skip(m, 0x51, 0, 12, 0);
    lemma_skip(m, 0x51, 0, 13, 0);
    lemma_skip(m, 0x51, 0, 14, 0);
    lemma_skip(m, 0x51, 0, 15, 0);
    lemma_skip(m, 0x51, 0, 16, 0);
    lemma_skip(m, 0x51, 0, 17, 0);
    lemma_skip(m, 0x51, 0, 18, 0);
    lemma_skip(m, 0x51, 0, 19, 0);
    lemma_skip(m, 0x51, 0, 20, 0);
    lemma_skip(m, 0x51, 0, 21, 0);
    lemma_skip(m, 0x51, 0, 22, 0);
    lemma_skip(m, 0x51, 0, 23, 0);
    lemma_skip(m, 0x51, 0, 24, 0);
    lemma_skip(m, 0x51, 0, 25, 0);
    lemma_skip(m, 0x51, 0, 26, 0);
    lemma_skip(m, 0x51, 0, 27, 0);
    lemma_skip(m, 0x51, 0, 28, 0);
    lemma_skip(m, 0x51, 0, 29, 0);
    lemma_skip(m, 0x51, 0, 30, 0);
    lemma_skip(m, 0x51, 0, 31, 0);
    lemma_skip(m, 0x51, 0, 32, 0);
    lemma_skip(m, 0x51, 0, 33, 0);
    lemma_skip(m, 0x51, 0, 34, 0);
    lemma_skip(m, 0x51, 0, 35, 0);
    lemma_skip(m, 0x51, 0, 36, 0);
    lemma_skip(m, 0x51, 0, 37, 0);
    lemma_skip(m, 0x51, 0, 38, 0);
    lemma_skip(m, 0x51, 0, 39, 0);
    assert(spec_lower(m) =~= m);
}

proof fn lemma_row_41()
    ensures
        row_found(41),
{
    lemma_table_rows();
    let m = seq!['l', 'd', 'h'];
    lemma_skip(m, 0x52, 1, 0, 0);
    lemma_skip(m, 0x52, 1, 1, 0);
    lemma_skip(m, 0x52, 1, 2, 0);
    lemma_skip(m, 0x52, 1, 3, 0);
    lemma_skip(m, 0x52, 1, 4, 0);
    lemma_skip(m, 0x52, 1, 5, 0);
    lemma_skip(m, 0x52, 1, 6, 0);
    lemma_skip(m, 0x52, 1, 7, 0);
    lemma_skip(m, 0x52, 1, 8, 0);
    lemma_skip(m, 0x52, 1, 9, 0);
    lemma_skip(m, 0x52, 1, 10, 0);
    lemma_skip(m, 0x52, 1, 11, 0);
    lemma_skip(m, 0x52, 1, 12, 0);
    lemma_skip(m, 0x52, 1, 13, 0);
    lemma_skip(m, 0x52, 1, 14, 0);
    lemma_skip(m, 0x52, 1, 15, 0);
    lemma_skip(m, 0x52, 1, 16, 0);
    lemma_skip(m, 0x52, 1, 17, 0);
    lemma_skip(m, 0x52, 1, 18, 0);
    lemma_skip(m, 0x52, 1, 19, 0);
    lemma_skip(m, 0x52, 1, 20, 0);
    lemma_skip(m, 0x52, 1, 21, 0);
    lemma_skip(m, 0x52, 1, 22, 0);
    lemma_skip(m, 0x52, 1, 23, 0);
    lemma_skip(m, 0x52, 1, 24, 0);
    lemma_skip(m, 0x52, 1, 25, 0);
    lemma_skip(m, 0x52, 1, 26, 0);
    lemma_skip(m, 0x52, 1, 27, 0);
    lemma_skip(m, 0x52, 1, 28, 0);
    lemma_skip(m, 0x52, 1, 29, 0);
    lemma_skip(m, 0x52, 1, 30, 0);
    lemma_skip(m, 0x52, 1, 31, 0);
    lemma_skip(m, 0x52, 1, 32, 0);
    lemma_skip(m, 0x52, 1, 33, 0);
    lemma_skip(m, 0x52, 1, 34, 0);
    lemma_skip(m, 0x52, 1, 35, 0);
    lemma_skip(m, 0x52, 1, 36, 0);
    lemma_skip(m, 0x52, 1, 37, 0);
    lemma_skip(m, 0x52, 1, 38, 0);
    lemma_skip(m, 0x52, 1, 39, 2);
    lemma_skip(m, 0x52, 1, 40, 0);
    assert(spec_lower(m) =~= m);
}

proof fn lemma_row_42()
    ensures
        row_found(42),
{
    lemma_table_rows();
    let m = seq!['l', 'd', 'h', 'u'];
    lemma_skip(m, 0x52, 0, 0, 0);
    lemma_skip(m, 0x52, 0, 1, 0);
    lemma_skip(m, 0x52, 0, 2, 0);
    lemma_skip(m, 0x52, 0, 3, 0);
    lemma_skip(m, 0x52, 0, 4, 0);
    lemma_skip(m, 0x52, 0, 5, 0);
    lemma_skip(m, 0x52, 0, 6, 0);
    lemma_skip(m, 0x52, 0, 7, 0);
    lemma_skip(m, 0x52, 0, 8, 0);
    lemma_skip(m, 0x52, 0, 9, 0);
    lemma_skip(m, 0x52, 0, 10, 0);
    lemma_skip(m, 0x52, 0, 11, 0);
    lemma_skip(m, 0x52, 0, 12, 0);
    lemma_skip(m, 0x52, 0, 13, 0);
    lemma_skip(m, 0x52, 0, 14, 0);
    lemma_skip(m, 0x52, 0, 15, 0);
    lemma_skip(m, 0x52, 0, 16, 0);
    lemma_skip(m, 0x52, 0, 17, 0);
    lemma_skip(m, 0x52, 0, 18, 0);
    lemma_skip(m, 0x52, 0, 19, 0);
    lemma_skip(m, 0x52, 0, 20, 0);
    lemma_skip(m, 0x52, 0, 21, 0);
    lemma_skip(m, 0x52, 0, 22, 0);
    lemma_skip(m, 0x52, 0, 23, 0);
    lemma_skip(m, 0x52, 0, 24, 0);
    lemma_skip(m, 0x52, 0, 25, 0);
    lemma_skip(m, 0x52, 0, 26, 0);
    lemma_skip(m, 0x52, 0, 27, 0);
    lemma_skip(m, 0x52, 0, 28, 0);
    lemma_skip(m, 0x52, 0, 29, 0);
    lemma_skip(m, 0x52, 0, 30, 0);
    lemma_skip(m, 0x52, 0, 31, 0);
    lemma_skip(m, 0x52, 0, 32, 0);
    lemma_skip(m, 0x52, 0, 33, 0);
    lemma_skip(m, 0x52, 0, 34, 0);
    lemma_skip(m, 0x52, 0, 35, 0);
    lemma_skip(m, 0x52, 0, 36, 0);
    lemma_skip(m, 0x52, 0, 37, 0);
    lemma_skip(m, 0x52, 0, 38, 0);
    lemma_skip(m, 0x52, 0, 39, 0);
    lemma_skip(m, 0x52, 0, 40, 2);
    lemma_skip(m, 0x52, 0, 41, 0);
    assert(spec_lower(m) =~= m);
}

proof fn lemma_row_43()
    ensures
        row_found(43),
{
    lemma_table_rows();
    let m = seq!['l', 'd', 'b'];
    lemma_skip(m, 0x53, 1, 0, 0);
    lemma_skip(m, 0x53, 1, 1, 0);
    lemma_skip(m, 0x53, 1, 2, 0);
    lemma_skip(m, 0x53, 1, 3, 0);
    lemma_skip(m, 0x53, 1, 4, 0);
    lemma_skip(m, 0x53, 1, 5, 0);
    lemma_skip(m, 0x53, 1, 6, 0);
    lemma_skip(m, 0x53, 1, 7, 0);
    lemma_skip(m, 0x53, 1, 8, 0);
    lemma_skip(m, 0x53, 1, 9, 0);
    lemma_skip(m, 0x53, 1, 10, 0);
    lemma_skip(m, 0x53, 1, 11, 0);
    lemma_skip(m, 0x53, 1, 12, 0);
    lemma_skip(m, 0x53, 1, 13, 0);
    lemma_skip(m, 0x53, 1, 14, 0);
    lemma_skip(m, 0x53, 1, 15, 0);
    lemma_skip(m, 0x53, 1, 16, 0);
    lemma_skip(m, 0x53, 1, 17, 0);
    lemma_skip(m, 0x53, 1, 18, 0);
    lemma_skip(m, 0x53, 1, 19, 0);
    lemma_skip(m, 0x53, 1, 20, 0);
    lemma_skip(m, 0x53, 1, 21, 0);
    lemma_skip(m, 0x53, 1, 22, 0);
    lemma_skip(m, 0x53, 1, 23, 0);
    lemma_skip(m, 0x53, 1, 24, 0);
    lemma_skip(m, 0x53, 1, 25, 0);
    lemma_skip(m, 0x53, 1, 26, 0);
    lemma_skip(m, 0x53, 1, 27, 0);
    lemma_skip(m, 0x53, 1, 28, 0);
    lemma_skip(m, 0x53, 1, 29, 0);
    lemma_skip(m, 0x53, 1, 30, 0);
    lemma_skip(m, 0x53, 1, 31, 0);
    lemma_skip(m, 0x53, 1, 32, 0);
    lemma_skip(m, 0x53, 1, 33, 0);
    lemma_skip(m, 0x53, 1, 34, 0);
    lemma_skip(m, 0x53, 1, 35, 0);
    lemma_skip(m, 0x53, 1, 36, 0);
    lemma_skip(m, 0x53, 1, 37, 0);
    lemma_skip(m, 0x53, 1, 38, 0);
    lemma_skip(m, 0x53, 1, 39, 2);
    lemma_skip(m, 0x53, 1, 40, 0);
    lemma_skip(m, 0x53, 1, 41, 2);
    lemma_skip(m, 0x53, 1, 42, 0);
    assert(spec_lower(m) =~= m);
}

proof fn lemma_row_44()
    ensures
        row_found(44),
{
    lemma_table_rows();
    let m = seq!['l', 'd', 'b', 'u'];
    lemma_skip(m, 0x53, 0, 0, 0);
    lemma_skip(m, 0x53, 0, 1, 0);
    lemma_skip(m, 0x53, 0, 2, 0);
    lemma_skip(m, 0x53, 0, 3, 0);
    lemma_skip(m, 0x53, 0, 4, 0);
    lemma_skip(m, 0x53, 0, 5, 0);
    lemma_skip(m, 0x53, 0, 6, 0);
    lemma_skip(m, 0x53, 0, 7, 0);
    lemma_skip(m, 0x53, 0, 8, 0);
    lemma_skip(m, 0x53, 0, 9, 0);
    lemma_skip(m, 0x53, 0, 10, 0);
    lemma_skip(m, 0x53, 0, 11, 0);
    lemma_skip(m, 0x53, 0, 12, 0);
    lemma_skip(m, 0x53, 0, 13, 0);
    lemma_skip(m, 0x53, 0, 14, 0);
    lemma_skip(m, 0x53, 0, 15, 0);
    lemma_skip(m, 0x53, 0, 16, 0);
    lemma_skip(m, 0x53, 0, 17, 0);
    lemma_skip(m, 0x53, 0, 18, 0);
    lemma_skip(m, 0x53, 0, 19, 0);
    lemma_skip(m, 0x53, 0, 20, 0);
    lemma_skip(m, 0x53, 0, 21, 0);
    lemma_skip(m, 0x53, 0, 22, 0);
    lemma_skip(m, 0x53, 0, 23, 0);
    lemma_skip(m, 0x53, 0, 24, 0);
    lemma_skip(m, 0x53, 0, 25, 0);
    lemma_skip(m, 0x53, 0, 26, 0);
    lemma_skip(m, 0x53, 0, 27, 0);
    lemma_skip(m, 0x53, 0, 28, 0);
    lemma_skip(m, 0x53, 0, 29, 0);
    lemma_skip(m, 0x53, 0, 30, 0);
    lemma_skip(m, 0x53, 0, 31, 0);
    lemma_skip(m, 0x53, 0, 32, 0);
    lemma_skip(m, 0x53, 0, 33, 0);
    lemma_skip(m, 0x53, 0, 34, 0);
    lemma_skip(m, 0x53, 0, 35, 0);
    lemma_skip(m, 0x53, 0, 36, 0);
    lemma_skip(m, 0x53, 0, 37, 0);
    lemma_skip(m, 0x53, 0, 38, 0);
    lemma_skip(m, 0x53, 0, 39, 0);
    lemma_skip(m, 0x53, 0, 40, 2);
    lemma_skip(m, 0x53, 0, 41, 0);
    lemma_skip(m, 0x53, 0, 42, 2);
    lemma_skip(m, 0x53, 0, 43, 0);
    assert(spec_lower(m) =~= m);
}

proof fn lemma_row_45()
    ensures
        row_found(45),
{
    lemma_table_rows();
    let m = seq!['s', 't'];
    lemma_skip(m, 0x54, 0, 0, 0);
    lemma_skip(m, 0x54, 0, 1, 0);
    lemma_skip(m, 0x54, 0, 2, 0);
    lemma_skip(m, 0x54, 0, 3, 0);
    lemma_skip(m, 0x54, 0, 4, 0);
    lemma_skip(m, 0x54, 0, 5, 0);
    lemma_skip(m, 0x54, 0, 6, 0);
    lemma_skip(m, 0x54, 0, 7, 0);
    lemma_skip(m, 0x54, 0, 8, 0);
    lemma_skip(m, 0x54, 0, 9, 0);
    lemma_skip(m, 0x54, 0, 10, 0);
    lemma_skip(m, 0x54, 0, 11, 0);
    lemma_skip(m, 0x54, 0, 12, 0);
    lemma_skip(m, 0x54, 0, 13, 0);
    lemma_skip(m, 0x54, 0, 14, 0);
    lemma_skip(m, 0x54, 0, 15, 0);
    lemma_skip(m, 0x54, 0, 16, 0);
    lemma_skip(m, 0x54, 0, 17, 0);
    lemma_skip(m, 0x54, 0, 18, 0);
    lemma_skip(m, 0x54, 0, 19, 0);
    lemma_skip(m, 0x54, 0, 20, 0);
    lemma_skip(m, 0x54, 0, 21, 0);
    lemma_skip(m, 0x54, 0, 22, 0);
    lemma_skip(m, 0x54, 0, 23, 0);
    lemma_skip(m, 0x54, 0, 24, 0);
    lemma_skip(m, 0x54, 0, 25, 0);
    lemma_skip(m, 0x54, 0, 26, 0);
    lemma_skip(m, 0x54, 0, 27, 0);
    lemma_skip(m, 0x54, 0, 28, 0);
    lemma_skip(m, 0x54, 0, 29, 0);
    lemma_skip(m, 0x54, 0, 30, 0);
    lemma_skip(m, 0x54, 0, 31, 0);
    lemma_skip(m, 0x54, 0, 32, 0);
    lemma_skip(m, 0x54, 0, 33, 0);
    lemma_skip(m, 0x54, 0, 34, 0);
    lemma_skip(m, 0x54, 0, 35, 0);
    lemma_skip(m, 0x54, 0, 36, 0);
    lemma_skip(m, 0x54, 0, 37, 0);
    lemma_skip(m, 0x54, 0, 38, 0);
    lemma_skip(m, 0x54, 0, 39, 0);
    lemma_skip(m, 0x54, 0, 40, 0);
    lemma_skip(m, 0x54, 0, 41, 0);
    lemma_skip(m, 0x54, 0, 42, 0);
    lemma_skip(m, 0x54, 0, 43, 0);
    lemma_skip(m, 0x54, 0, 44, 0);
    assert(spec_lower(m) =~= m);
}

proof fn lemma_row_46()
    ensures
        row_found(46),
{
    lemma_table_rows();
    let m = seq!['s', 't', 'w'];
    lemma_skip(m, 0x55, 0, 0, 0);
    lemma_skip(m, 0x55, 0, 1, 0);
    lemma_skip(m, 0x55, 0, 2, 0);
    lemma_skip(m, 0x55, 0, 3, 0);
    lemma_skip(m, 0x55, 0, 4, 1);
    lemma_skip(m, 0x55, 0, 5, 0);
    lemma_skip(m, 0x55, 0, 6, 0);
    lemma_skip(m, 0x55, 0, 7, 0);
    lemma_skip(m, 0x55, 0, 8, 0);
    lemma_skip(m, 0x55, 0, 9, 1);
    lemma_skip(m, 0x55, 0, 10, 1);
    lemma_skip(m, 0x55, 0, 11, 1);
    lemma_skip(m, 0x55, 0, 12, 0);
    lemma_skip(m, 0x55, 0, 13, 0);
    lemma_skip(m, 0x55, 0, 14, 0);
    lemma_skip(m, 0x55, 0, 15, 0);
    lemma_skip(m, 0x55, 0, 16, 0);
    lemma_skip(m, 0x55, 0, 17, 0);
    lemma_skip(m, 0x55, 0, 18, 0);
    lemma_skip(m, 0x55, 0, 19, 1);
    lemma_skip(m, 0x55, 0, 20, 0);
    lemma_skip(m, 0x55, 0, 21, 1);
    lemma_skip(m, 0x55, 0, 22, 1);
    lemma_skip(m, 0x55, 0, 23, 1);
    lemma_skip(m, 0x55, 0, 24, 0);
    lemma_skip(m, 0x55, 0, 25, 1);
    lemma_skip(m, 0x55, 0, 26, 0);
    lemma_skip(m, 0x55, 0, 27, 0);
    lemma_skip(m, 0x55, 0, 28, 0);
    lemma_skip(m, 0x55, 0, 29, 0);
    lemma_skip(m, 0x55, 0, 30, 0);
    lemma_skip(m, 0x55, 0, 31, 0);
    lemma_skip(m, 0x55, 0, 32, 0);
    lemma_skip(m, 0x55, 0, 33, 0);
    lemma_skip(m, 0x55, 0, 34, 0);
    lemma_skip(m, 0x55, 0, 35, 0);
    lemma_skip(m, 0x55, 0, 36, 0);
    lemma_skip(m, 0x55, 0, 37, 0);
    lemma_skip(m, 0x55, 0, 38, 0);
    lemma_skip(m, 0x55, 0, 39, 0);
    lemma_skip(m, 0x55, 0, 40, 0);
    lemma_skip(m, 0x55, 0, 41, 0);
    lemma_skip(m, 0x55, 0, 42, 0);
    lemma_skip(m, 0x55, 0, 43, 0);
    lemma_skip(m, 0x55, 0, 44, 0);
    lemma_skip(m, 0x55, 0, 45, 0);
    assert(spec_lower(m) =~= m);
}

proof fn lemma_row_47()
    ensures
        row_found(47),
{
    lemma_table_rows();
    let m = seq!['s', 't', 'h'];
    lemma_skip(m, 0x56, 0, 0, 0);
    lemma_skip(m, 0x56, 0, 1, 0);
    lemma_skip(m, 0x56, 0, 2, 0);
    lemma_skip(m, 0x56, 0, 3, 0);
    lemma_skip(m, 0x56, 0, 4, 1);
    lemma_skip(m, 0x56, 0, 5, 0);
    lemma_skip(m, 0x56, 0, 6, 0);
    lemma_skip(m, 0x56, 0, 7, 0);
    lemma_skip(m, 0x56, 0, 8, 0);
    lemma_skip(m, 0x56, 0, 9, 1);
    lemma_skip(m, 0x56, 0, 10, 1);
    lemma_skip(m, 0x56, 0, 11, 1);
    lemma_skip(m, 0x56, 0, 12, 0);
    lemma_skip(m, 0x56, 0, 13, 0);
    lemma_skip(m, 0x56, 0, 14, 0);
    lemma_skip(m, 0x56, 0, 15, 0);
    lemma_skip(m, 0x56, 0, 16, 0);
    lemma_skip(m, 0x56, 0, 17, 0);
    lemma_skip(m, 0x56, 0, 18, 0);
    lemma_skip(m, 0x56, 0, 19, 1);
    lemma_skip(m, 0x56, 0, 20, 0);
    lemma_skip(m, 0x56, 0, 21, 1);
    lemma_skip(m, 0x56, 0, 22, 1);
    lemma_skip(m, 0x56, 0, 23, 1);
    lemma_skip(m, 0x56, 0, 24, 0);
    lemma_skip(m, 0x56, 0, 25, 1);
    lemma_skip(m, 0x56, 0, 26, 0);
    lemma_skip(m, 0x56, 0, 27, 0);
    lemma_skip(m, 0x56, 0, 28, 0);
    lemma_skip(m, 0x56, 0, 29, 0);
    lemma_skip(m, 0x56, 0, 30, 0);
    lemma_skip(m, 0x56, 0, 31, 0);
    lemma_skip(m, 0x56, 0, 32, 0);
    lemma_skip(m, 0x56, 0, 33, 0);
    lemma_skip(m, 0x56, 0, 34, 0);
    lemma_skip(m, 0x56, 0, 35, 0);
    lemma_skip(m, 0x56, 0, 36, 0);
    lemma_skip(m, 0x56, 0, 37, 0);
    lemma_skip(m, 0x56, 0, 38, 0);
    lemma_skip(m, 0x56, 0, 39, 0);
    lemma_skip(m, 0x56, 0, 40, 0);
    lemma_skip(m, 0x56, 0, 41, 0);
    lemma_skip(m, 0x56, 0, 42, 0);
    lemma_skip(m, 0x56, 0, 43, 0);
    lemma_skip(m, 0x56, 0, 44, 0);
    lemma_skip(m, 0x56, 0, 45, 0);
    lemma_skip(m, 0x56, 0, 46, 2);
    assert(spec_lower(m) =~= m);
}

proof fn lemma_row_48()
    ensures
        row_found(48),
{
    lemma_table_rows();
    let m = seq!['s', 't', 'b'];
    lemma_skip(m, 0x57, 0, 0, 0);
    lemma_skip(m, 0x57, 0, 1, 0);
    lemma_skip(m, 0x57, 0, 2, 0);
    lemma_skip(m, 0x57, 0, 3, 0);
    lemma_skip(m, 0x57, 0, 4, 1);
    lemma_skip(m, 0x57, 0, 5, 0);
    lemma_skip(m, 0x57, 0, 6, 0);
    lemma_skip(m, 0x57, 0, 7, 0);
    lemma_skip(m, 0x57, 0, 8, 0);
    lemma_skip(m, 0x57, 0, 9, 1);
    lemma_skip(m, 0x57, 0, 10, 1);
    lemma_skip(m, 0x57, 0, 11, 1);
    lemma_skip(m, 0x57, 0, 12, 0);
    lemma_skip(m, 0x57, 0, 13, 0);
    lemma_skip(m, 0x57, 0, 14, 0);
    lemma_skip(m, 0x57, 0, 15, 0);
    lemma_skip(m, 0x57, 0, 16, 0);
    lemma_skip(m, 0x57, 0, 17, 0);
    lemma_skip(m, 0x57, 0, 18, 0);
    lemma_skip(m, 0x57, 0, 19, 1);
    lemma_skip(m, 0x57, 0, 20, 0);
    lemma_skip(m, 0x57, 0, 21, 1);
    lemma_skip(m, 0x57, 0, 22, 1);
    lemma_skip(m, 0x57, 0, 23, 1);
    lemma_skip(m, 0x57, 0, 24, 0);
    lemma_skip(m, 0x57, 0, 25, 1);
    lemma_skip(m, 0x57, 0, 26, 0);
    lemma_skip(m, 0x57, 0, 27, 0);
    lemma_skip(m, 0x57, 0, 28, 0);
    lemma_skip(m, 0x57, 0, 29, 0);
    lemma_skip(m, 0x57, 0, 30, 0);
    lemma_skip(m, 0x57, 0, 31, 0);
    lemma_skip(m, 0x57, 0, 32, 0);
    lemma_skip(m, 0x57, 0, 33, 0);
    lemma_skip(m, 0x57, 0, 34, 0);
    lemma_skip(m, 0x57, 0, 35, 0);
    lemma_skip(m, 0x57, 0, 36, 0);
    lemma_skip(m, 0x57, 0, 37, 0);
    lemma_skip(m, 0x57, 0, 38, 0);
    lemma_skip(m, 0x57, 0, 39, 0);
    lemma_skip(m, 0x57, 0, 40, 0);
    lemma_skip(m, 0x57, 0, 41, 0);
    lemma_skip(m, 0x57, 0, 42, 0);
    lemma_skip(m, 0x57, 0, 43, 0);
    lemma_skip(m, 0x57, 0, 44, 0);
    lemma_skip(m, 0x57, 0, 45, 0);
    lemma_skip(m, 0x57, 0, 46, 2);
    lemma_skip(m, 0x57, 0, 47, 2);
    assert(spec_lower(m) =~= m);
}

proof fn lemma_row_49()
    ensures
        row_found(49),
{
    lemma_table_rows();
    let m = seq!['h', 'a', 'l', 't'];
    lemma_skip(m, 0xFF, 0, 0, 0);
    lemma_skip(m, 0xFF, 0, 1, 0);
    lemma_skip(m, 0xFF, 0, 2, 0);
    lemma_skip(m, 0xFF, 0, 3, 0);
    lemma_skip(m, 0xFF, 0, 4, 0);
    lemma_skip(m, 0xFF, 0, 5, 0);
    lemma_skip(m, 0xFF, 0, 6, 0);
    lemma_skip(m, 0xFF, 0, 7, 0);
    lemma_skip(m, 0xFF, 0, 8, 0);
    lemma_skip(m, 0xFF, 0, 9, 0);
    lemma_skip(m, 0xFF, 0, 10, 0);
    lemma_skip(m, 0xFF, 0, 11, 0);
    lemma_skip(m, 0xFF, 0, 12, 0);
    lemma_skip(m, 0xFF, 0, 13, 0);
    lemma_skip(m, 0xFF, 0, 14, 0);
    lemma_skip(m, 0xFF, 0, 15, 0);
    lemma_skip(m, 0xFF, 0, 16, 0);
    lemma_skip(m, 0xFF, 0, 17, 0);
    lemma_skip(m, 0xFF, 0, 18, 0);
    lemma_skip(m, 0xFF, 0, 19, 0);
    lemma_skip(m, 0xFF, 0, 20, 0);
    lemma_skip(m, 0xFF, 0, 21, 0);
    lemma_skip(m, 0xFF, 0, 22, 0);
    lemma_skip(m, 0xFF, 0, 23, 0);
    lemma_skip(m, 0xFF, 0, 24, 0);
    lemma_skip(m, 0xFF, 0, 25, 0);
    lemma_skip(m, 0xFF, 0, 26, 0);
    lemma_skip(m, 0xFF, 0, 27, 0);
    lemma_skip(m, 0xFF, 0, 28, 0);
    lemma_skip(m, 0xFF, 0, 29, 0);
    lemma_skip(m, 0xFF, 0, 30, 0);
    lemma_skip(m, 0xFF, 0, 31, 0);
    lemma_skip(m, 0xFF, 0, 32, 0);
    lemma_skip(m, 0xFF, 0, 33, 0);
    lemma_skip(m, 0xFF, 0, 34, 0);
    lemma_skip(m, 0xFF, 0, 35, 0);
    lemma_skip(m, 0xFF, 0, 36, 0);
    lemma_skip(m, 0xFF, 0, 37, 0);
    lemma_skip(m, 0xFF, 0, 38, 0);
    lemma_skip(m, 0xFF, 0, 39, 0);
    lemma_skip(m, 0xFF, 0, 40, 0);
    lemma_skip(m, 0xFF, 0, 41, 0);
    lemma_skip(m, 0xFF, 0, 42, 0);
    lemma_skip(m, 0xFF, 0, 43, 0);
    lemma_skip(m, 0xFF, 0, 44, 0);
    lemma_skip(m, 0xFF, 0, 45, 0);
    lemma_skip(m, 0xFF, 0, 46, 0);
    lemma_skip(m, 0xFF, 0, 47, 0);
    lemma_skip(m, 0xFF, 0, 48, 0);
    assert(spec_lower(m) =~= m);
}

/// Every row of the instruction table is found again by its mnemonic, in
/// any letter case, and by its (opcode, flags) pair: mnemonics are unique
/// and lower case, and no two rows share an opcode and flags. Every row's
/// flags fit the nibble and its result register, if any, is among its
/// register operands.
pub proof fn law_table_lookups(k: int, m: Seq<char>)
    requires
        0 <= k < instructions_spec().len(),
    ensures
        by_mnemonic_spec(instructions_spec()[k].mnemonic@) == Some(instructions_spec()[k]),
        spec_lower(m) == instructions_spec()[k].mnemonic@ ==> by_mnemonic_spec(m) == Some(
            instructions_spec()[k],
        ),
        find_opcode(instructions_spec(), instructions_spec()[k].opcode, instructions_spec()[k].flags, 0)
            == Some(instructions_spec()[k]),
        instructions_spec()[k].flags <= 0xF,
        row_ok(instructions_spec()[k]),
{
    assert(instructions_spec().len() == 50);
    if k == 0 {
        lemma_row_00();
    } else if k == 1 {
        lemma_row_01();
    } else if k == 2 {
        lemma_row_02();
    } else if k == 3 {
        lemma_row_03();
    } else if k == 4 {
        lemma_row_04();
    } else if k == 5 {
        lemma_row_05();
    } else if k == 6 {
        lemma_row_06();
    } else if k == 7 {
        lemma_row_07();
    } else if k == 8 {
        lemma_row_08();
    } else if k == 9 {
        lemma_row_09();
    } else if k == 10 {
        lemma_row_10();
    } else if k == 11 {
        lemma_row_11();
    } else if k == 12 {
        lemma_row_12();
    } else if k == 13 {
        lemma_row_13();
    } else if k == 14 {
        lemma_row_14();
    } else if k == 15 {
        lemma_row_15();
    } else if k == 16 {
        lemma_row_16();
    } else if k == 17 {
        lemma_row_17();
    } else if k == 18 {
        lemma_row_18();
    } else if k == 19 {
        lemma_row_19();
    } else if k == 20 {
        lemma_row_20();
    } else if k == 21 {
        lemma_row_21();
    } else if k == 22 {
        lemma_row_22();
    } else if k == 23 {
        lemma_row_23();
    } else if k == 24 {
        lemma_row_24();
    } else if k == 25 {
        lemma_row_25();
    } else if k == 26 {
        lemma_row_26();
    } else if k == 27 {
        lemma_row_27();
    } else if k == 28 {
        lemma_row_28();
    } else if k == 29 {
        lemma_row_29();
    } else if k == 30 {
        lemma_row_30();
    } else if k == 31 {
        lemma_row_31();
    } else if k == 32 {
        lemma_row_32();
    } else if k == 33 {
        lemma_row_33();
    } else if k == 34 {
        lemma_row_34();
    } else if k == 35 {
        lemma_row_35();
    } else if k == 36 {
        lemma_row_36();
    } else if k == 37 {
        lemma_row_37();
    } else if k == 38 {
        lemma_row_38();
    } else if k == 39 {
        lemma_row_39();
    } else if k == 40 {
        lemma_row_40();
    } else if k == 41 {
        lemma_row_41();
    } else if k == 42 {
        lemma_row_42();
    } else if k == 43 {
        lemma_row_43();
    } else if k == 44 {
        lemma_row_44();
    } else if k == 45 {
        lemma_row_45();
    } else if k == 46 {
        lemma_row_46();
    } else if k == 47 {
        lemma_row_47();
    } else if k == 48 {
        lemma_row_48();
    } else if k == 49 {
        lemma_row_49();
    }
}

} // verus!
