//! Line-oriented parser. One statement per line; a label is `name:` alone on
//! its line; everything else is `mnemonic op, op, ...`; `;` or `//` starts a
//! comment. Anything that does not fit is an error, not a guess.
use crate::assembler::ast::{item_views, Instr, InstrV, Item, ItemKind, ItemV, Operand, OperandV, Program};
use crate::assembler::err::{at, at_quoted, at_spec, quoted_spec, Result};
use crate::assembler::isa::registers::{lookup_chars, lookup_spec};
use crate::text::{self, has_prefix, spec_is_alnum, spec_is_alpha, spec_lower, trim, trim_start};
use crate::vea_sim::assembler::lex::{lines_spec, strip_comment_spec};
use crate::vea_sim::assembler::parse::ws_from;
use vstd::prelude::*;

verus! {

/// A label or symbol name: a letter or `_`, then letters, digits, `_` or `.`.
pub open spec fn is_ident_spec(s: Seq<char>) -> bool {
    &&& s.len() > 0
    &&& (spec_is_alpha(s[0]) || s[0] == '_')
    &&& forall|i: int|
        1 <= i < s.len() ==> spec_is_alnum(#[trigger] s[i]) || s[i] == '_' || s[i] == '.'
}

pub fn is_ident(s: &[char]) -> (b: bool)
    ensures
        b == is_ident_spec(s@),
{
    if s.len() == 0 || !(text::is_alpha(s[0]) || s[0] == '_') {
        return false;
    }
    let mut i: usize = 1;
    while i < s.len()
        invariant
            1 <= i <= s@.len(),
            forall|j: int| 1 <= j < i ==> spec_is_alnum(#[trigger] s@[j]) || s@[j] == '_' || s@[j] == '.',
        decreases s.len() - i,
    {
        if !(text::is_alnum(s[i]) || s[i] == '_' || s[i] == '.') {
            return false;
        }
        i += 1;
    }
    true
}

/// The characters other than `_`, in order.
pub open spec fn without_underscores(s: Seq<char>) -> Seq<char>
    decreases s.len(),
{
    if s.len() == 0 {
        seq![]
    } else if s.last() == '_' {
        without_underscores(s.drop_last())
    } else {
        without_underscores(s.drop_last()).push(s.last())
    }
}

/// The radix and digits of an (already lower-cased) literal body.
pub open spec fn radix_of(lower: Seq<char>) -> (nat, Seq<char>) {
    if has_prefix(lower, seq!['0', 'x']) {
        (16, lower.skip(2))
    } else if has_prefix(lower, seq!['0', 'b']) {
        (2, lower.skip(2))
    } else if has_prefix(lower, seq!['0', 'o']) {
        (8, lower.skip(2))
    } else {
        (10, lower)
    }
}

/// `42`, `0x2a`, `0b1010`, `0o17`, `-1`, `+7`, `1_000`: an optional sign,
/// then digits (underscores ignored) in the radix the prefix names, as an
/// `i128` (`from_str_radix` on the digits; its result negated for a leading
/// `-`). `None` when that value is out of range or nothing parses.
pub open spec fn parse_int_spec(s: Seq<char>) -> Option<i128> {
    let t = trim(s);
    let neg = t.len() > 0 && t[0] == '-';
    let rest = if neg {
        trim_start(t.drop_first())
    } else if t.len() > 0 && t[0] == '+' {
        t.drop_first()
    } else {
        t
    };
    let (radix, digits) = radix_of(spec_lower(rest));
    let clean = without_underscores(digits);
    if clean.len() == 0 {
        None
    } else {
        match text::parse_radix_spec(clean, radix, i128::MIN as int, i128::MAX as int) {
            None => None,
            Some(m) => if neg {
                if m == i128::MIN {
                    None
                } else {
                    Some((-m) as i128)
                }
            } else {
                Some(m as i128)
            },
        }
    }
}

/// Parse an integer literal.
pub fn parse_int(s: &[char]) -> (r: Option<i128>)
    ensures
        r == parse_int_spec(s@),
{
    let t = text::trim_slice(s);
    let neg = t.len() > 0 && t[0] == '-';
    let rest: &[char] = if neg {
        let r = text::trim_start_slice(vstd::slice::slice_subrange(t, 1, t.len()));
        assert(t@.subrange(1, t@.len() as int) == t@.drop_first());
        r
    } else if t.len() > 0 && t[0] == '+' {
        let r = vstd::slice::slice_subrange(t, 1, t.len());
        assert(r@ == t@.drop_first());
        r
    } else {
        t
    };
    let lower = text::lower(rest);
    let ghost rd = radix_of(lower@);
    let p0x: [char; 2] = ['0', 'x'];
    let p0b: [char; 2] = ['0', 'b'];
    let p0o: [char; 2] = ['0', 'o'];
    assert(p0x@ == seq!['0', 'x'] && p0b@ == seq!['0', 'b'] && p0o@ == seq!['0', 'o']);
    let (radix, start): (u32, usize) = if text::starts_with(lower.as_slice(), &p0x) {
        (16, 2)
    } else if text::starts_with(lower.as_slice(), &p0b) {
        (2, 2)
    } else if text::starts_with(lower.as_slice(), &p0o) {
        (8, 2)
    } else {
        (10, 0)
    };
    assert(lower@.skip(start as int) == rd.1);
    let mut clean: Vec<char> = Vec::new();
    let mut i: usize = start;
    while i < lower.len()
        invariant
            start <= i <= lower@.len(),
            clean@ == without_underscores(lower@.subrange(start as int, i as int)),
        decreases lower.len() - i,
    {
        let c = lower[i];
        proof {
            let a = lower@.subrange(start as int, i + 1);
            assert(a.drop_last() == lower@.subrange(start as int, i as int));
            assert(a.last() == c);
        }
        if c != '_' {
            clean.push(c);
        }
        i += 1;
    }
    assert(lower@.subrange(start as int, i as int) == rd.1);
    if clean.len() == 0 {
        return None;
    }
    let m = text::parse_radix(
        clean.as_slice(),
        radix,
        0x8000_0000_0000_0000_0000_0000_0000_0000,
        0x7fff_ffff_ffff_ffff_ffff_ffff_ffff_ffff,
    )?;
    if neg {
        if m == i128::MIN {
            None
        } else {
            Some(-m)
        }
    } else {
        Some(m)
    }
}

/// Position of the first `+` or `-` at or after `i`, or `s.len()`.
pub open spec fn sign_at(s: Seq<char>, i: int) -> int
    decreases s.len() - i,
{
    if i < 0 || i >= s.len() {
        s.len() as int
    } else if s[i] == '+' || s[i] == '-' {
        i
    } else {
        sign_at(s, i + 1)
    }
}

/// `rb`, `rb + disp`, `rb - disp`.
pub open spec fn parse_mem_spec(inner: Seq<char>) -> Option<OperandV> {
    let pos = sign_at(inner, 0);
    if pos < inner.len() {
        let neg = inner[pos] == '-';
        match parse_int_spec(trim(inner.skip(pos + 1))) {
            None => None,
            Some(mag) => {
                let disp: int = if neg {
                    -mag
                } else {
                    mag as int
                };
                if disp < i128::MIN as int || disp > i128::MAX as int {
                    None
                } else {
                    match lookup_spec(trim(inner.take(pos))) {
                        Some(base) => Some(OperandV::Mem { base, disp: disp as i128 }),
                        None => None,
                    }
                }
            },
        }
    } else {
        match lookup_spec(inner) {
            Some(base) => Some(OperandV::Mem { base, disp: 0 }),
            None => None,
        }
    }
}

/// The message for a memory operand whose base is not a register.
pub open spec fn not_reg_spec(line: nat, base: Seq<char>) -> Seq<char> {
    "line "@ + text::digits(line, 10) + ": `"@ + base + "` is not a register"@
}

/// The message for a memory field that does not parse.
pub open spec fn mem_err(line: nat, inner: Seq<char>) -> Seq<char> {
    let pos = sign_at(inner, 0);
    if pos < inner.len() {
        let ds = trim(inner.skip(pos + 1));
        match parse_int_spec(ds) {
            None => quoted_spec(line, "bad displacement"@, ds),
            Some(mag) => if inner[pos] == '-' && mag == i128::MIN {
                at_spec(line, "displacement out of range"@)
            } else {
                not_reg_spec(line, trim(inner.take(pos)))
            },
        }
    } else {
        not_reg_spec(line, inner)
    }
}

fn parse_mem(line: usize, inner: &[char]) -> (r: Result<Operand>)
    ensures
        match parse_mem_spec(inner@) {
            Some(o) => r matches Ok(x) && x@ == o,
            None => r is Err,
        },
        r matches Err(e) ==> e@ == mem_err(line as nat, inner@),
{
    let mut pos: usize = 0;
    while pos < inner.len() && !(inner[pos] == '+' || inner[pos] == '-')
        invariant
            pos <= inner@.len(),
            sign_at(inner@, 0) == sign_at(inner@, pos as int),
        decreases inner.len() - pos,
    {
        pos += 1;
    }
    if pos < inner.len() {
        let neg = inner[pos] == '-';
        let ds = text::trim_slice(vstd::slice::slice_subrange(inner, pos + 1, inner.len()));
        assert(inner@.subrange(pos + 1, inner@.len() as int) == inner@.skip(pos + 1));
        let mag = match parse_int(ds) {
            Some(m) => m,
            None => {
                return Err(at_quoted(line, "bad displacement", ds));
            },
        };
        let disp: i128 = if neg {
            if mag == i128::MIN {
                return Err(at(line, "displacement out of range"));
            }
            -mag
        } else {
            mag
        };
        let bs = text::trim_slice(vstd::slice::slice_subrange(inner, 0, pos));
        assert(inner@.subrange(0, pos as int) == inner@.take(pos as int));
        match lookup_chars(bs) {
            Some(base) => Ok(Operand::Mem { base, disp }),
            None => Err(not_a_register(line, bs)),
        }
    } else {
        match lookup_chars(inner) {
            Some(base) => Ok(Operand::Mem { base, disp: 0 }),
            None => Err(not_a_register(line, inner)),
        }
    }
}

/// The message for a memory operand whose base is not a register.
fn not_a_register(line: usize, base: &[char]) -> (s: String)
    ensures
        s@ == not_reg_spec(line as nat, base@),
{
    let mut m = crate::vea_sim::error::Msg::new("line ");
    m.dec(line as u64);
    m.lit(": `");
    m.chars(base);
    m.lit("` is not a register");
    m.string()
}

/// A character literal such as `'A'`: the character's code point.
pub open spec fn char_lit_spec(s: Seq<char>) -> Option<i128> {
    if s.len() == 3 && s[0] == '\'' && s[2] == '\'' {
        Some((s[1] as u32) as i128)
    } else {
        None
    }
}

/// A character literal such as `'A'`, read as its code point.
fn char_lit(s: &[char]) -> (r: Option<i128>)
    ensures
        r == char_lit_spec(s@),
{
    if s.len() == 3 && s[0] == '\'' && s[2] == '\'' {
        Some((s[1] as u32) as i128)
    } else {
        None
    }
}

/// One operand: a memory field, a register, an integer (a number or a
/// character literal), or a label name; a `#` in front is optional sugar.
pub open spec fn parse_operand_spec(s: Seq<char>) -> Option<OperandV> {
    if s.len() == 0 {
        None
    } else if s[0] == '[' {
        let inner = s.drop_first();
        if inner.len() > 0 && inner.last() == ']' {
            parse_mem_spec(trim(inner.drop_last()))
        } else {
            None
        }
    } else {
        let s2 = if s[0] == '#' {
            trim(s.drop_first())
        } else {
            s
        };
        if lookup_spec(s2) is Some {
            Some(OperandV::Reg(lookup_spec(s2).unwrap()))
        } else if parse_int_spec(s2) is Some {
            Some(OperandV::Int(parse_int_spec(s2).unwrap()))
        } else if char_lit_spec(s2) is Some {
            Some(OperandV::Int(char_lit_spec(s2).unwrap()))
        } else if is_ident_spec(s2) {
            Some(OperandV::Sym(s2))
        } else {
            None
        }
    }
}

/// The message for an operand that does not parse.
pub open spec fn operand_err(line: nat, s: Seq<char>) -> Seq<char> {
    if s.len() == 0 {
        at_spec(line, "empty operand"@)
    } else if s[0] == '[' {
        let inner = s.drop_first();
        if inner.len() > 0 && inner.last() == ']' {
            mem_err(line, trim(inner.drop_last()))
        } else {
            at_spec(line, "unclosed `[` in memory operand"@)
        }
    } else {
        let s2 = if s[0] == '#' {
            trim(s.drop_first())
        } else {
            s
        };
        quoted_spec(line, "can't parse operand"@, s2)
    }
}

fn parse_operand(line: usize, s: &[char]) -> (r: Result<Operand>)
    ensures
        match parse_operand_spec(s@) {
            Some(o) => r matches Ok(x) && x@ == o,
            None => r is Err,
        },
        r matches Err(e) ==> e@ == operand_err(line as nat, s@),
{
    if s.len() == 0 {
        return Err(at(line, "empty operand"));
    }
    if s[0] == '[' {
        if s.len() >= 2 && s[s.len() - 1] == ']' {
            let inner = text::trim_slice(vstd::slice::slice_subrange(s, 1, s.len() - 1));
            assert(s@.subrange(1, s@.len() - 1) == s@.drop_first().drop_last());
            return parse_mem(line, inner);
        }
        return Err(at(line, "unclosed `[` in memory operand"));
    }
    let s2: &[char] = if s[0] == '#' {
        let r = text::trim_slice(vstd::slice::slice_subrange(s, 1, s.len()));
        assert(s@.subrange(1, s@.len() as int) == s@.drop_first());
        r
    } else {
        s
    };
    if let Some(r) = lookup_chars(s2) {
        return Ok(Operand::Reg(r));
    }
    if let Some(v) = parse_int(s2) {
        return Ok(Operand::Int(v));
    }
    if let Some(v) = char_lit(s2) {
        return Ok(Operand::Int(v));
    }
    if is_ident(s2) {
        let name = text::string_of(s2);
        return Ok(Operand::Sym(name));
    }
    Err(at_quoted(line, "can't parse operand", s2))
}

/// The pieces of `s` between commas, from position `i` on.
pub open spec fn pieces_from(s: Seq<char>, i: int) -> Seq<Seq<char>>
    decreases s.len() - i,
{
    if i < 0 || i > s.len() {
        seq![]
    } else {
        let e = text::index_of(s, ',', i);
        if e >= s.len() {
            seq![s.subrange(i, s.len() as int)]
        } else {
            proof {
                text::lemma_index_of(s, ',', i);
            }
            seq![s.subrange(i, e)] + pieces_from(s, e + 1)
        }
    }
}

/// What one line holds: nothing, a label, or an instruction; `None` when it
/// is malformed.
pub enum LineV {
    Blank,
    Stmt(ItemV),
}

/// The operands of an operand list, each trimmed and parsed.
pub open spec fn operands_spec(ps: Seq<Seq<char>>) -> Option<Seq<OperandV>>
    decreases ps.len(),
{
    if ps.len() == 0 {
        Some(seq![])
    } else {
        match (operands_spec(ps.drop_last()), parse_operand_spec(trim(ps.last()))) {
            (Some(a), Some(o)) => Some(a.push(o)),
            _ => None,
        }
    }
}

/// The message for the first operand of a list that does not parse.
pub open spec fn operands_err(line: nat, ps: Seq<Seq<char>>) -> Seq<char>
    decreases ps.len(),
{
    if ps.len() == 0 {
        seq![]
    } else if operands_spec(ps.drop_last()) is None {
        operands_err(line, ps.drop_last())
    } else {
        operand_err(line, trim(ps.last()))
    }
}

/// One source line, numbered `line`.
pub open spec fn parse_line_spec(raw: Seq<char>, line: nat) -> Option<LineV> {
    let t = trim(strip_comment_spec(raw));
    if t.len() == 0 {
        Some(LineV::Blank)
    } else if t.last() == ':' {
        let name = trim(t.drop_last());
        if is_ident_spec(name) {
            Some(LineV::Stmt(ItemV::Label(line, name)))
        } else {
            None
        }
    } else if text::index_of(t, ':', 0) < t.len() {
        None
    } else {
        let k = ws_from(t, 0);
        let mn = spec_lower(t.take(k));
        let rest = if k < t.len() {
            trim(t.skip(k + 1))
        } else {
            seq![]
        };
        let ops = if rest.len() == 0 {
            Some(seq![])
        } else {
            operands_spec(pieces_from(rest, 0))
        };
        match ops {
            None => None,
            Some(o) => Some(LineV::Stmt(ItemV::Instr(line, InstrV { mnemonic: mn, operands: o }))),
        }
    }
}

/// The message for a source line that does not parse.
pub open spec fn line_err(raw: Seq<char>, line: nat) -> Seq<char> {
    let t = trim(strip_comment_spec(raw));
    if t.len() > 0 && t.last() == ':' {
        quoted_spec(line, "not a valid label:"@, t)
    } else if text::index_of(t, ':', 0) < t.len() {
        at_spec(line, "a label must be alone on its own line"@)
    } else {
        let k = ws_from(t, 0);
        let rest = if k < t.len() {
            trim(t.skip(k + 1))
        } else {
            seq![]
        };
        operands_err(line, pieces_from(rest, 0))
    }
}

/// The message for the first line from `i` on that does not parse.
pub open spec fn parse_err_from(ls: Seq<Seq<char>>, i: int) -> Seq<char>
    decreases ls.len() - i,
{
    if i < 0 || i >= ls.len() {
        seq![]
    } else if parse_line_spec(ls[i], (i + 1) as nat) is None {
        line_err(ls[i], (i + 1) as nat)
    } else {
        parse_err_from(ls, i + 1)
    }
}

/// The message for a source text that does not parse: that of its first
/// line that does not.
pub open spec fn parse_err(src: Seq<char>) -> Seq<char> {
    parse_err_from(lines_spec(src), 0)
}

/// The statements of lines `i..`.
pub open spec fn parse_from(ls: Seq<Seq<char>>, i: int) -> Option<Seq<ItemV>>
    decreases ls.len() - i,
{
    if i < 0 || i >= ls.len() {
        Some(seq![])
    } else {
        match parse_line_spec(ls[i], (i + 1) as nat) {
            None => None,
            Some(LineV::Blank) => parse_from(ls, i + 1),
            Some(LineV::Stmt(it)) => match parse_from(ls, i + 1) {
                None => None,
                Some(more) => Some(seq![it] + more),
            },
        }
    }
}

/// The statements of a source text.
pub open spec fn parse_spec(src: Seq<char>) -> Option<Seq<ItemV>> {
    parse_from(lines_spec(src), 0)
}

fn parse_operands(line: usize, rest: &[char]) -> (r: Result<Vec<Operand>>)
    ensures
        match operands_spec(pieces_from(rest@, 0)) {
            Some(o) => r matches Ok(v) && v@.map_values(|x: Operand| x@) == o,
            None => r is Err,
        },
        r matches Err(e) ==> e@ == operands_err(line as nat, pieces_from(rest@, 0)),
{
    let mut out: Vec<Operand> = Vec::new();
    let mut start: usize = 0;
    let ghost mut done: Seq<Seq<char>> = seq![];
    loop
        invariant
            start <= rest@.len(),
            pieces_from(rest@, 0) == done + pieces_from(rest@, start as int),
            operands_spec(done) == Some(out@.map_values(|x: Operand| x@)),
        decreases rest@.len() - start,
    {
        let e = match text::find_char(rest, ',', start) {
            Some(e) => e,
            None => rest.len(),
        };
        proof {
            text::lemma_index_of(rest@, ',', start as int);
        }
        let piece = text::trim_slice(vstd::slice::slice_subrange(rest, start, e));
        let ghost p = rest@.subrange(start as int, e as int);
        proof {
            if e < rest@.len() {
                assert(pieces_from(rest@, start as int) == seq![p] + pieces_from(rest@, e + 1));
            } else {
                assert(pieces_from(rest@, start as int) == seq![p]);
            }
            let all = pieces_from(rest@, 0);
            assert(all.take((done.len() + 1) as int) =~= done.push(p));
            assert(done.push(p).drop_last() == done);
            assert(done.push(p).last() == p);
        }
        let o = match parse_operand(line, piece) {
            Ok(o) => o,
            Err(m) => {
                proof {
                    lemma_operands_prefix(done.push(p), pieces_from(rest@, 0));
                    lemma_operands_err_prefix(line as nat, done.push(p), pieces_from(rest@, 0));
                    assert(done.push(p).drop_last() == done);
                }
                return Err(m);
            },
        };
        proof {
            assert(out@.push(o).map_values(|x: Operand| x@) =~= out@.map_values(|x: Operand| x@).push(
                o@,
            ));
        }
        out.push(o);
        proof {
            if e < rest@.len() {
                assert(pieces_from(rest@, start as int) == seq![p] + pieces_from(rest@, e + 1));
                assert(done + pieces_from(rest@, start as int) == done.push(p) + pieces_from(
                    rest@,
                    e + 1,
                ));
            } else {
                assert(pieces_from(rest@, start as int) == seq![p]);
            }
            done = done.push(p);
        }
        if e >= rest.len() {
            assert(pieces_from(rest@, 0) == done);
            return Ok(out);
        }
        start = e + 1;
    }
}

/// Once a prefix of an operand list fails, the list fails with the prefix's
/// message.
proof fn lemma_operands_err_prefix(line: nat, a: Seq<Seq<char>>, b: Seq<Seq<char>>)
    requires
        a.len() <= b.len(),
        b.take(a.len() as int) == a,
        operands_spec(a) is None,
    ensures
        operands_err(line, b) == operands_err(line, a),
    decreases b.len() - a.len(),
{
    if a.len() < b.len() {
        let b0 = b.drop_last();
        assert(b0.take(a.len() as int) == a);
        lemma_operands_prefix(a, b0);
        lemma_operands_err_prefix(line, a, b0);
    } else {
        assert(b.take(a.len() as int) == b);
    }
}

proof fn lemma_operands_prefix(a: Seq<Seq<char>>, b: Seq<Seq<char>>)
    requires
        a.len() <= b.len(),
        b.take(a.len() as int) == a,
        operands_spec(a) is None,
    ensures
        operands_spec(b) is None,
    decreases b.len() - a.len(),
{
    if a.len() < b.len() {
        let a2 = b.take((a.len() + 1) as int);
        assert(a2.drop_last() == a);
        lemma_operands_prefix(a2, b);
    } else {
        assert(b.take(a.len() as int) == b);
    }
}

/// Parse a whole program.
pub fn parse(src: &str) -> (r: Result<Program>)
    ensures
        match parse_spec(src@) {
            Some(items) => r matches Ok(p) && item_views(p.items@) == items,
            None => r is Err,
        },
        r matches Err(e) ==> e@ == parse_err(src@),
{
    let cs = text::str_chars(src);
    let lines = crate::vea_sim::assembler::lex::source_lines(cs.as_slice());
    let ghost ls = lines_spec(src@);
    let mut items: Vec<Item> = Vec::new();
    let mut i: usize = 0;
    while i < lines.len()
        invariant
            cs@ == src@,
            ls == lines_spec(src@),
            lines@.len() == ls.len(),
            forall|k: int| 0 <= k < lines@.len() ==> #[trigger] lines@[k]@ == ls[k],
            i <= lines@.len(),
            parse_spec(src@) == (match parse_from(ls, i as int) {
                None => None,
                Some(more) => Some(item_views(items@) + more),
            }),
            parse_err(src@) == parse_err_from(ls, i as int),
        decreases lines.len() - i,
    {
        let ln = i + 1;
        let t = text::trim_slice(crate::vea_sim::assembler::lex::strip_comment(lines[i].as_slice()));
        assert(lines@[i as int]@ == ls[i as int]);
        if t.len() == 0 {
            i += 1;
            continue ;
        }
        if t[t.len() - 1] == ':' {
            let name = text::trim_slice(vstd::slice::slice_subrange(t, 0, t.len() - 1));
            assert(t@.subrange(0, t@.len() - 1) == t@.drop_last());
            if !is_ident(name) {
                return Err(at_quoted(ln, "not a valid label:", t));
            }
            let it = Item { line: ln, kind: ItemKind::Label(text::string_of(name)) };
            proof {
                assert(item_views(items@.push(it)) =~= item_views(items@).push(it@));
                let pm = parse_from(ls, i + 1);
                if pm is Some {
                    assert(item_views(items@) + (seq![it@] + pm.unwrap()) =~= item_views(items@).push(
                        it@,
                    ) + pm.unwrap());
                }
            }
            items.push(it);
            i += 1;
            continue ;
        }
        if text::find_char(t, ':', 0).is_some() {
            return Err(at(ln, "a label must be alone on its own line"));
        }
        let mut k: usize = 0;
        while k < t.len() && !text::is_ws(t[k])
            invariant
                k <= t@.len(),
                ws_from(t@, 0) == ws_from(t@, k as int),
            decreases t.len() - k,
        {
            k += 1;
        }
        let mn = text::lower(vstd::slice::slice_subrange(t, 0, k));
        assert(t@.subrange(0, k as int) == t@.take(k as int));
        let rest: &[char] = if k < t.len() {
            let r = text::trim_slice(vstd::slice::slice_subrange(t, k + 1, t.len()));
            assert(t@.subrange(k + 1, t@.len() as int) == t@.skip(k + 1));
            r
        } else {
            &[]
        };
        assert(k >= t@.len() ==> rest@ == Seq::<char>::empty());
        let operands: Vec<Operand> = if rest.len() == 0 {
            let v: Vec<Operand> = Vec::new();
            assert(v@.map_values(|x: Operand| x@) =~= Seq::<OperandV>::empty());
            v
        } else {
            parse_operands(ln, rest)?
        };
        let it = Item {
            line: ln,
            kind: ItemKind::Instr(Instr { mnemonic: text::string_of(mn.as_slice()), operands }),
        };
        proof {
            assert(item_views(items@.push(it)) =~= item_views(items@).push(it@));
            let pm = parse_from(ls, i + 1);
            if pm is Some {
                assert(item_views(items@) + (seq![it@] + pm.unwrap()) =~= item_views(items@).push(it@)
                    + pm.unwrap());
            }
        }
        items.push(it);
        i += 1;
    }
    assert(item_views(items@) + Seq::<ItemV>::empty() =~= item_views(items@));
    Ok(Program { items })
}

proof fn lemma_parse_from_len(ls: Seq<Seq<char>>, i: int)
    requires
        0 <= i <= ls.len(),
        parse_from(ls, i) is Some,
    ensures
        parse_from(ls, i).unwrap().len() <= ls.len() - i,
    decreases ls.len() - i,
{
    if i < ls.len() {
        lemma_parse_from_len(ls, i + 1);
    }
}

/// A program has at most one statement per line.
pub proof fn lemma_parse_len(src: Seq<char>)
    requires
        parse_spec(src) is Some,
    ensures
        parse_spec(src).unwrap().len() <= src.len() + 1,
{
    crate::vea_sim::assembler::parse::lemma_lines_bound(src);
    lemma_parse_from_len(lines_spec(src), 0);
}

} // verus!
