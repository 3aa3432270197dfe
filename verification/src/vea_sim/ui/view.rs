//! The text the view shows, and the layout numbers behind it. Painting the
//! widgets is the terminal front end's business; what goes in them is
//! computed here.
use crate::text;
use crate::vea_sim::assembler::ListingRow;
use crate::vea_sim::isa::NUM_REGS;
use crate::vea_sim::ui::app::{App, Radix};
use vstd::prelude::*;

verus! {

/// A byte count in the largest whole binary unit: MiB, KiB, or B.
pub open spec fn human_bytes_spec(n: u64) -> Seq<char> {
    if n >= 1024 * 1024 {
        text::digits(n as nat / 0x10_0000, 10) + " MiB"@
    } else if n >= 1024 {
        text::digits(n as nat / 1024, 10) + " KiB"@
    } else {
        text::digits(n as nat, 10) + " B"@
    }
}

/// A byte count for the header, e.g. `3 KiB`.
pub fn human_bytes(n: u64) -> (s: String)
    ensures
        s@ == human_bytes_spec(n),
{
    let k: u64 = 1024;
    let (v, unit) = if n >= k * k {
        (n / (k * k), " MiB")
    } else if n >= k {
        (n / k, " KiB")
    } else {
        (n, " B")
    };
    let mut out = String::new();
    let d = text::fmt_dec(v);
    text::push_chars(&mut out, d.as_slice());
    let u = text::str_chars(unit);
    text::push_chars(&mut out, u.as_slice());
    out
}

/// Two lower-case hex digits per byte, separated by single spaces.
pub open spec fn hex_pairs(bs: Seq<u8>) -> Seq<char>
    decreases bs.len(),
{
    if bs.len() == 0 {
        Seq::empty()
    } else if bs.len() == 1 {
        text::zero_pad(text::digits(bs[0] as nat, 16), 2)
    } else {
        hex_pairs(bs.drop_last()) + seq![' '] + text::zero_pad(text::digits(bs.last() as nat, 16), 2)
    }
}

/// `s` padded with spaces on the right to at least `w` characters.
pub open spec fn pad_right(s: Seq<char>, w: nat) -> Seq<char> {
    if s.len() >= w {
        s
    } else {
        s + Seq::new((w - s.len()) as nat, |i: int| ' ')
    }
}

/// One disassembly row: a marker on the PC's row, the address in eight hex
/// digits, the frame's bytes, and the instruction text.
pub open spec fn disasm_line_spec(here: bool, addr: u64, bytes: Seq<u8>, txt: Seq<char>) -> Seq<char> {
    let gutter = if here {
        seq!['\u{25b6}', ' ']
    } else {
        seq![' ', ' ']
    };
    gutter + text::zero_pad(text::digits(addr as nat, 16), 8) + seq![' ', ' '] + pad_right(hex_pairs(bytes), 23)
        + seq![' ', ' '] + txt
}

fn push_hex2(out: &mut Vec<char>, b: u8)
    ensures
        final(out)@ == old(out)@ + text::zero_pad(text::digits(b as nat, 16), 2),
{
    let mut d = text::fmt_radix(b as u64, 16, 2);
    out.append(&mut d);
}

/// One disassembly row's text.
pub fn disasm_line(here: bool, addr: u64, bytes: &[u8], txt: &str) -> (s: String)
    ensures
        s@ == disasm_line_spec(here, addr, bytes@, txt@),
{
    let mut out: Vec<char> = Vec::new();
    if here {
        out.push('\u{25b6}');
    } else {
        out.push(' ');
    }
    out.push(' ');
    let mut a = text::fmt_radix(addr, 16, 8);
    out.append(&mut a);
    out.push(' ');
    out.push(' ');
    let mut p: Vec<char> = Vec::new();
    let mut i: usize = 0;
    while i < bytes.len()
        invariant
            i <= bytes@.len(),
            p@ == hex_pairs(bytes@.take(i as int)),
        decreases bytes@.len() - i,
    {
        if i > 0 {
            p.push(' ');
        }
        push_hex2(&mut p, bytes[i]);
        proof {
            assert(bytes@.take(i + 1).drop_last() =~= bytes@.take(i as int));
            if i == 0 {
                assert(bytes@.take(1) =~= seq![bytes@[0]]);
            }
        }
        i += 1;
    }
    assert(bytes@.take(bytes@.len() as int) =~= bytes@);
    let ghost pairs = hex_pairs(bytes@);
    assert(p@ =~= pad_right(pairs, p@.len()));
    while p.len() < 23
        invariant
            p@ == pad_right(pairs, p@.len()),
            p@.len() >= pairs.len(),
            p@.len() <= 23 || p@.len() == pairs.len(),
        decreases 23 - p@.len(),
    {
        p.push(' ');
        assert(p@ =~= pad_right(pairs, p@.len()));
    }
    assert(p@ =~= pad_right(pairs, 23));
    out.append(&mut p);
    out.push(' ');
    out.push(' ');
    let mut t = text::str_chars(txt);
    out.append(&mut t);
    text::string_of(out.as_slice())
}

/// The first program row at the PC, if any.
pub open spec fn pc_row_spec(rows: Seq<ListingRow>, pc: u64, i: int) -> Option<usize>
    decreases rows.len() - i,
{
    if i < 0 || i >= rows.len() {
        None
    } else if rows[i].addr == pc {
        Some(i as usize)
    } else {
        pc_row_spec(rows, pc, i + 1)
    }
}

/// The row of the program at the PC, if any.
pub fn pc_row(rows: &[ListingRow], pc: u64) -> (r: Option<usize>)
    ensures
        r == pc_row_spec(rows@, pc, 0),
{
    let mut i: usize = 0;
    while i < rows.len()
        invariant
            i <= rows@.len(),
            pc_row_spec(rows@, pc, 0) == pc_row_spec(rows@, pc, i as int),
        decreases rows@.len() - i,
    {
        if rows[i].addr == pc {
            return Some(i);
        }
        i += 1;
    }
    None
}

/// Before painting the disassembly: follow the PC's row when following, keep
/// the selection on the program, and record how many rows fit (`height` less
/// the border).
pub fn sync_disasm(app: &mut App, rows: &[ListingRow], pc: u64, height: u16)
    requires
        rows@.len() > 0,
    ensures
        final(app)@ == (crate::vea_sim::ui::app::AppV {
            disasm_sel: {
                let s = match (old(app).follow_pc, pc_row_spec(rows@, pc, 0)) {
                    (true, Some(i)) => i,
                    _ => old(app).disasm_sel,
                };
                if s >= rows@.len() {
                    (rows@.len() - 1) as usize
                } else {
                    s
                }
            },
            disasm_rows: if height >= 2 {
                (height - 2) as usize
            } else {
                0
            },
            ..old(app)@
        }),
{
    let here = pc_row(rows, pc);
    if app.follow_pc {
        if let Some(i) = here {
            app.disasm_sel = i;
        }
    }
    if app.disasm_sel >= rows.len() {
        app.disasm_sel = rows.len() - 1;
    }
    app.disasm_rows = if height >= 2 {
        (height - 2) as usize
    } else {
        0
    };
}

/// Bytes per memory row that fit in `inner_w` columns: the address, three
/// columns per byte, a gap and one column per byte of ASCII; 16, 8, or else 4.
pub open spec fn mem_stride_spec(inner_w: usize) -> usize {
    if 10 + 16 * 3 + 1 + 16 <= inner_w {
        16
    } else if 10 + 8 * 3 + 1 + 8 <= inner_w {
        8
    } else {
        4
    }
}

/// Bytes per memory row for a pane `inner_w` columns wide.
pub fn mem_stride(inner_w: usize) -> (s: usize)
    ensures
        s == mem_stride_spec(inner_w),
{
    if inner_w >= 75 {
        16
    } else if inner_w >= 43 {
        8
    } else {
        4
    }
}

/// A byte as the ASCII column shows it: printable characters as themselves,
/// everything else as a dot.
pub open spec fn ascii_char(b: u8) -> char {
    if 0x20 <= b < 0x7f {
        (b as u32) as char
    } else {
        '.'
    }
}

/// The ASCII column of a memory row.
pub fn ascii_of(chunk: &[u8]) -> (s: String)
    ensures
        s@ == chunk@.map_values(|b: u8| ascii_char(b)),
{
    let mut out: Vec<char> = Vec::new();
    let mut i: usize = 0;
    while i < chunk.len()
        invariant
            i <= chunk@.len(),
            out@ == chunk@.take(i as int).map_values(|b: u8| ascii_char(b)),
        decreases chunk@.len() - i,
    {
        let b = chunk[i];
        let c = if 0x20 <= b && b < 0x7f {
            b as char
        } else {
            '.'
        };
        out.push(c);
        i += 1;
        assert(out@ =~= chunk@.take(i as int).map_values(|b: u8| ascii_char(b)));
    }
    assert(chunk@.take(chunk@.len() as int) =~= chunk@);
    text::string_of(out.as_slice())
}

/// Columns and rows of the register grid for a pane `inner_w` columns wide:
/// as many cells as fit (one to four), and the registers split evenly down
/// them.
pub open spec fn reg_grid_spec(inner_w: usize, radix: Radix) -> (usize, usize) {
    let cell: int = match radix {
        Radix::Hex => 22,
        Radix::Signed => 26,
    };
    let fit: int = inner_w as int / cell;
    let cols: int = if fit < 1 {
        1
    } else if fit > 4 {
        4
    } else {
        fit
    };
    (cols as usize, ((NUM_REGS + cols - 1) / cols) as usize)
}

/// The register grid's shape.
pub fn reg_grid(inner_w: usize, radix: Radix) -> (r: (usize, usize))
    ensures
        r == reg_grid_spec(inner_w, radix),
{
    let cell: usize = match radix {
        Radix::Hex => 22,
        Radix::Signed => 26,
    };
    let fit = inner_w / cell;
    let cols: usize = if fit < 1 {
        1
    } else if fit > 4 {
        4
    } else {
        fit
    };
    (cols, (NUM_REGS + cols - 1) / cols)
}

/// The header's run-state label: a fault first, then a halt, then running or
/// paused.
pub open spec fn run_label_spec(fault: bool, halted: bool, running: bool) -> Seq<char> {
    if fault {
        "FAULT"@
    } else if halted {
        "HALTED"@
    } else if running {
        "RUNNING"@
    } else {
        "PAUSED"@
    }
}

/// The header's run-state label.
pub fn run_label(fault: bool, halted: bool, running: bool) -> (s: &'static str)
    ensures
        s@ == run_label_spec(fault, halted, running),
{
    if fault {
        "FAULT"
    } else if halted {
        "HALTED"
    } else if running {
        "RUNNING"
    } else {
        "PAUSED"
    }
}

/// Where the key reference overlay goes in a `width` x `height` area at
/// (`x`, `y`): centred, at most 58 x 18 and 4 short of each edge; nowhere
/// when the area is smaller than 44 x 14.
pub open spec fn help_rect_spec(x: u16, y: u16, width: u16, height: u16) -> Option<(u16, u16, u16, u16)> {
    if width < 44 || height < 14 {
        None
    } else {
        let w: int = if 58 < width - 4 {
            58
        } else {
            width - 4
        };
        let h: int = if 18 < height - 4 {
            18
        } else {
            height - 4
        };
        Some(((x + (width - w) / 2) as u16, (y + (height - h) / 2) as u16, w as u16, h as u16))
    }
}

/// The key reference overlay's rectangle, as (x, y, width, height).
pub fn help_rect(x: u16, y: u16, width: u16, height: u16) -> (r: Option<(u16, u16, u16, u16)>)
    requires
        x + width <= u16::MAX,
        y + height <= u16::MAX,
    ensures
        r == help_rect_spec(x, y, width, height),
{
    if width < 44 || height < 14 {
        return None;
    }
    let w: u16 = if 58 < width - 4 {
        58
    } else {
        width - 4
    };
    let h: u16 = if 18 < height - 4 {
        18
    } else {
        height - 4
    };
    Some((x + (width - w) / 2, y + (height - h) / 2, w, h))
}

} // verus!
