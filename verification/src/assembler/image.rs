//! Ways to look at the assembled bytes.
use crate::assembler::assemble::Object;
use crate::text::{self, digits, zero_pad};
use crate::vea_sim::assembler::pad_right;
use vstd::prelude::*;

verus! {

/// A byte as a character: printable ASCII and space as themselves, anything
/// else as `.`.
pub open spec fn ascii_char(b: u8) -> char {
    if (0x21 <= b <= 0x7E) || b == 0x20 {
        (b as u32) as char
    } else {
        '.'
    }
}

/// Each byte as two hex digits and a space.
pub open spec fn hex_col(c: Seq<u8>) -> Seq<char>
    decreases c.len(),
{
    if c.len() == 0 {
        seq![]
    } else {
        hex_col(c.drop_last()) + zero_pad(digits(c.last() as nat, 16), 2) + seq![' ']
    }
}

/// One dump row: offset, hex column padded to 48, the bytes as text.
pub open spec fn dump_row(off: nat, c: Seq<u8>) -> Seq<char> {
    zero_pad(digits(off, 16), 4) + ":  "@ + pad_right(hex_col(c), 48) + " |"@ + c.map_values(
        |b: u8| ascii_char(b),
    ) + "|\n"@
}

/// The rows of a 16-byte-per-row dump from row `r` on.
pub open spec fn dump_from(b: Seq<u8>, r: nat) -> Seq<char>
    decreases b.len() + 16 - 16 * r,
{
    if 16 * r >= b.len() {
        seq![]
    } else {
        let lo: int = (16 * r) as int;
        let hi: int = if lo + 16 <= b.len() {
            lo + 16
        } else {
            b.len() as int
        };
        dump_row((16 * r) as nat, b.subrange(lo, hi)) + dump_from(b, r + 1)
    }
}

fn ascii_of(b: u8) -> (c: char)
    ensures
        c == ascii_char(b),
{
    if (0x21 <= b && b <= 0x7E) || b == 0x20 {
        b as char
    } else {
        '.'
    }
}

fn push_all(out: &mut Vec<char>, s: &str)
    ensures
        final(out)@ == old(out)@ + s@,
{
    let mut v = text::str_chars(s);
    out.append(&mut v);
}

/// A 16-byte-per-row hexdump.
pub fn hexdump(obj: &Object) -> (s: String)
    requires
        obj.bytes@.len() <= 0x7FFF_FFFF,
    ensures
        s@ == dump_from(obj.bytes@, 0),
{
    let b = &obj.bytes;
    let mut out: Vec<char> = Vec::new();
    let mut r: usize = 0;
    while r * 16 < b.len()
        invariant
            b@.len() <= 0x7FFF_FFFF,
            16 * r <= b@.len() + 15,
            dump_from(b@, 0) == out@ + dump_from(b@, r as nat),
        decreases b@.len() + 16 - 16 * r,
    {
        let lo = r * 16;
        let hi = if lo + 16 <= b.len() {
            lo + 16
        } else {
            b.len()
        };
        let ghost c = b@.subrange(lo as int, hi as int);
        let mut row = text::fmt_radix(lo as u64, 16, 4);
        push_all(&mut row, ":  ");
        let mut hex: Vec<char> = Vec::new();
        let mut asc: Vec<char> = Vec::new();
        let mut i: usize = lo;
        while i < hi
            invariant
                lo <= i <= hi <= b@.len(),
                c == b@.subrange(lo as int, hi as int),
                hex@ == hex_col(b@.subrange(lo as int, i as int)),
                asc@ == b@.subrange(lo as int, i as int).map_values(|x: u8| ascii_char(x)),
            decreases hi - i,
        {
            let mut d = text::fmt_radix(b[i] as u64, 16, 2);
            hex.append(&mut d);
            hex.push(' ');
            asc.push(ascii_of(b[i]));
            proof {
                let t = b@.subrange(lo as int, i + 1);
                assert(t.drop_last() == b@.subrange(lo as int, i as int));
                assert(t.last() == b@[i as int]);
                assert(t.map_values(|x: u8| ascii_char(x)) =~= b@.subrange(lo as int, i as int).map_values(
                    |x: u8| ascii_char(x),
                ).push(ascii_char(b@[i as int])));
            }
            i += 1;
        }
        crate::assembler::isa::pad_to_public(&mut hex, 48);
        row.append(&mut hex);
        push_all(&mut row, " |");
        row.append(&mut asc);
        push_all(&mut row, "|\n");
        proof {
            assert(row@ =~= dump_row(lo as nat, c));
            assert(dump_from(b@, r as nat) == dump_row(lo as nat, c) + dump_from(b@, (r + 1) as nat));
        }
        out.append(&mut row);
        r += 1;
    }
    assert(dump_from(b@, r as nat) == Seq::<char>::empty());
    assert(out@ + Seq::<char>::empty() == out@);
    text::string_of(out.as_slice())
}

/// `address  label` lines, in address order.
pub open spec fn symbols_spec(s: Seq<(Seq<char>, nat)>) -> Seq<char>
    decreases s.len(),
{
    if s.len() == 0 {
        seq![]
    } else {
        symbols_spec(s.drop_last()) + zero_pad(digits(s.last().1, 16), 8) + "  "@ + s.last().0
            + "\n"@
    }
}

/// `address  label` lines, in address order.
pub fn symbols(obj: &Object) -> (s: String)
    ensures
        s@ == symbols_spec(crate::assembler::assemble::sym_views(obj.symbols@)),
{
    let ghost sv = crate::assembler::assemble::sym_views(obj.symbols@);
    let mut out: Vec<char> = Vec::new();
    let mut k: usize = 0;
    while k < obj.symbols.len()
        invariant
            sv == crate::assembler::assemble::sym_views(obj.symbols@),
            k <= obj.symbols@.len(),
            out@ == symbols_spec(sv.take(k as int)),
        decreases obj.symbols.len() - k,
    {
        let mut a = text::fmt_radix(obj.symbols[k].1, 16, 8);
        push_all(&mut a, "  ");
        let mut n = text::str_chars(obj.symbols[k].0.as_str());
        a.append(&mut n);
        push_all(&mut a, "\n");
        proof {
            assert(sv.take(k + 1).drop_last() == sv.take(k as int));
            assert(sv.take(k + 1).last() == sv[k as int]);
            assert(sv[k as int] == (obj.symbols@[k as int].0@, obj.symbols@[k as int].1 as nat));
        }
        out.append(&mut a);
        k += 1;
    }
    assert(sv.take(k as int) == sv);
    text::string_of(out.as_slice())
}

} // verus!
