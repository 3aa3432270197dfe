//! The character-level grammar of Vea assembly: comments, lines, labels,
//! operand lists, registers and numeric literals, and the byte form of an
//! immediate.
use crate::text::{self, digits_value, has_prefix, index_of, parse_radix_spec, trim, trim_start};
use crate::vea_sim::memory::{be_bytes, be_val, pow256};
use crate::vea_sim::error::Msg;
use vstd::prelude::*;

verus! {

/// Position `i` starts a comment: `;` or `//`.
pub open spec fn is_cut(s: Seq<char>, i: int) -> bool {
    s[i] == ';' || (i + 1 < s.len() && s[i] == '/' && s[i + 1] == '/')
}

/// Where the comment starting at or after `i` begins, or `s.len()`.
pub open spec fn cut_from(s: Seq<char>, i: int) -> int
    decreases s.len() - i,
{
    if i < 0 || i >= s.len() {
        s.len() as int
    } else if is_cut(s, i) {
        i
    } else {
        cut_from(s, i + 1)
    }
}

/// The line with any `;` or `//` comment removed.
pub open spec fn strip_comment_spec(s: Seq<char>) -> Seq<char> {
    s.take(cut_from(s, 0))
}

pub proof fn lemma_cut_from(s: Seq<char>, i: int)
    requires
        0 <= i <= s.len(),
    ensures
        i <= cut_from(s, i) <= s.len(),
    decreases s.len() - i,
{
    if i < s.len() && !is_cut(s, i) {
        lemma_cut_from(s, i + 1);
    }
}

/// Comments run to end of line after `;` or `//`. `#` is not a comment
/// marker: it introduces a decimal literal.
pub fn strip_comment(s: &[char]) -> (out: &[char])
    ensures
        out@ == strip_comment_spec(s@),
{
    let mut i: usize = 0;
    while i < s.len() && !(s[i] == ';' || (i + 1 < s.len() && s[i] == '/' && s[i + 1] == '/'))
        invariant
            i <= s@.len(),
            cut_from(s@, 0) == cut_from(s@, i as int),
        decreases s.len() - i,
    {
        i += 1;
    }
    vstd::slice::slice_subrange(s, 0, i)
}

/// A line's text without a trailing carriage return.
pub open spec fn strip_cr(l: Seq<char>) -> Seq<char> {
    if l.len() > 0 && l.last() == '\r' {
        l.drop_last()
    } else {
        l
    }
}

/// `str::lines` on the text from `i` on.
pub open spec fn lines_from(s: Seq<char>, i: int) -> Seq<Seq<char>>
    decreases s.len() - i,
{
    if i < 0 || i >= s.len() {
        seq![]
    } else {
        let e = index_of(s, '\n', i);
        if e >= s.len() {
            seq![s.subrange(i, s.len() as int)]
        } else {
            proof {
                text::lemma_index_of(s, '\n', i);
            }
            seq![strip_cr(s.subrange(i, e))] + lines_from(s, e + 1)
        }
    }
}

/// `str::lines`: split at `\n`, dropping a `\r` just before it; a final
/// line ending is optional.
pub open spec fn lines_spec(s: Seq<char>) -> Seq<Seq<char>> {
    lines_from(s, 0)
}

/// The lines of the source text.
pub fn source_lines(s: &[char]) -> (out: Vec<Vec<char>>)
    ensures
        out@.len() == lines_spec(s@).len(),
        forall|k: int| 0 <= k < out@.len() ==> #[trigger] out@[k]@ == lines_spec(s@)[k],
{
    let mut out: Vec<Vec<char>> = Vec::new();
    let mut start: usize = 0;
    let ghost mut done: Seq<Seq<char>> = seq![];
    while start < s.len()
        invariant
            start <= s@.len(),
            lines_spec(s@) == done + lines_from(s@, start as int),
            out@.len() == done.len(),
            forall|k: int| 0 <= k < out@.len() ==> #[trigger] out@[k]@ == done[k],
        decreases s.len() - start,
    {
        let e = match text::find_char(s, '\n', start) {
            Some(e) => e,
            None => s.len(),
        };
        proof {
            text::lemma_index_of(s@, '\n', start as int);
        }
        let mut line = text::copy_range(s, start, e);
        if e < s.len() && line.len() > 0 && line[line.len() - 1] == '\r' {
            line.pop();
        }
        proof {
            let l = if e >= s@.len() {
                s@.subrange(start as int, s@.len() as int)
            } else {
                strip_cr(s@.subrange(start as int, e as int))
            };
            assert(line@ == l);
            assert(lines_from(s@, start as int) == seq![l] + lines_from(s@, e + 1));
            assert(done + lines_from(s@, start as int) == done.push(l) + lines_from(s@, e + 1));
            done = done.push(l);
        }
        out.push(line);
        if e >= s.len() {
            start = s.len();
        } else {
            start = e + 1;
        }
    }
    proof {
        assert(lines_from(s@, start as int) == Seq::<Seq<char>>::empty());
        assert(done + Seq::<Seq<char>>::empty() == done);
    }
    out
}

/// A label or symbol name: a letter, `_` or `.`, then letters, digits, `_`
/// or `.`.
pub open spec fn ident_char(c: char) -> bool {
    text::spec_is_alnum(c) || c == '_' || c == '.'
}

pub open spec fn is_ident_spec(s: Seq<char>) -> bool {
    &&& s.len() > 0
    &&& (text::spec_is_alpha(s[0]) || s[0] == '_' || s[0] == '.')
    &&& forall|i: int| 0 <= i < s.len() ==> ident_char(#[trigger] s[i])
}

pub fn is_ident(s: &[char]) -> (b: bool)
    ensures
        b == is_ident_spec(s@),
{
    if s.len() == 0 {
        return false;
    }
    if !(text::is_alpha(s[0]) || s[0] == '_' || s[0] == '.') {
        return false;
    }
    let mut i: usize = 0;
    while i < s.len()
        invariant
            i <= s@.len(),
            forall|j: int| 0 <= j < i ==> ident_char(#[trigger] s@[j]),
        decreases s.len() - i,
    {
        if !(text::is_alnum(s[i]) || s[i] == '_' || s[i] == '.') {
            return false;
        }
        i += 1;
    }
    true
}

/// `u16::from_str` on decimal text: an optional `+`, then digits.
pub open spec fn parse_u16_spec(s: Seq<char>) -> Option<int> {
    if s.len() > 0 && s[0] == '-' {
        None
    } else {
        parse_radix_spec(s, 10, -65536, 65535)
    }
}

/// Only r0..r31 are nameable: `r` (either case) then a decimal number below
/// 32, with whitespace around it ignored. The PC is architectural and a
/// program cannot touch it, so neither `pc` nor its internal index resolves.
pub open spec fn reg_spec(tok: Seq<char>) -> Option<u8> {
    let t = text::spec_lower(trim(tok));
    if t.len() > 0 && t[0] == 'r' {
        match parse_u16_spec(t.drop_first()) {
            Some(n) => if n < 32 {
                Some(n as u8)
            } else {
                None
            },
            None => None,
        }
    } else {
        None
    }
}

pub fn reg(tok: &[char]) -> (r: Option<u8>)
    ensures
        r == reg_spec(tok@),
{
    let tt = text::trim_slice(tok);
    let t = text::lower(tt);
    if t.len() == 0 || t[0] != 'r' {
        return None;
    }
    let digits = vstd::slice::slice_subrange(t.as_slice(), 1, t.len());
    assert(digits@ == t@.drop_first());
    if digits.len() > 0 && digits[0] == '-' {
        return None;
    }
    match text::parse_radix(digits, 10, 65536, 65535) {
        Some(n) => {
            if n < 32 {
                Some(n as u8)
            } else {
                None
            }
        },
        None => None,
    }
}

/// Two's-complement negation of a 64-bit value (`i64::MIN` stays itself).
pub open spec fn neg64(v: int) -> int {
    if v == i64::MIN {
        v
    } else {
        -v
    }
}

/// Numeric literal to a signed value. Hex carries a `0x` prefix, decimal a
/// `#` prefix (`mov r1, #10`, `add r1, r2, -#1`); an unprefixed token is not a
/// number and is left for label resolution. A leading `-` negates either
/// form, and `#-10` is accepted as well as `-#10`.
pub open spec fn imm_spec(tok: Seq<char>) -> Option<i64> {
    let t = trim(tok);
    let neg = t.len() > 0 && t[0] == '-';
    let body = if neg {
        trim_start(t.drop_first())
    } else {
        t
    };
    let mag = if has_prefix(body, seq!['0', 'x']) || has_prefix(body, seq!['0', 'X']) {
        parse_radix_spec(body.skip(2), 16, i64::MIN as int, i64::MAX as int)
    } else if body.len() > 0 && body[0] == '#' {
        parse_radix_spec(body.drop_first(), 10, i64::MIN as int, i64::MAX as int)
    } else {
        None
    };
    match mag {
        Some(m) => Some(
            if neg {
                neg64(m) as i64
            } else {
                m as i64
            },
        ),
        None => None,
    }
}

/// A leading `-` negates a hex (`0x`) or decimal (`#`) literal: the
/// literal with a `-` in front reads as the negation of the literal, and
/// reads at all exactly when the literal does (`i64::MIN` stays itself, as
/// wrapping negation leaves it).
pub proof fn law_imm_negation(t: Seq<char>)
    requires
        t.len() > 0,
        t[0] == '0' || t[0] == '#',
        !text::spec_is_ws(t.last()),
    ensures
        imm_spec(seq!['-'] + t) is Some <==> imm_spec(t) is Some,
        imm_spec(t) matches Some(v) ==> (v != i64::MIN ==> imm_spec(seq!['-'] + t) == Some((-v) as i64)),
{
    let s = seq!['-'] + t;
    assert(s[0] == '-');
    assert(s.last() == t.last());
    assert(trim_start(s) == s);
    assert(text::trim_end(s) == s);
    assert(trim_start(t) == t);
    assert(text::trim_end(t) == t);
    assert(s.drop_first() == t);
}

pub fn imm(tok: &[char]) -> (r: Option<i64>)
    ensures
        r == imm_spec(tok@),
{
    let t = text::trim_slice(tok);
    let neg = t.len() > 0 && t[0] == '-';
    let body = if neg {
        text::trim_start_slice(vstd::slice::slice_subrange(t, 1, t.len()))
    } else {
        t
    };
    proof {
        if neg {
            assert(t@.subrange(1, t@.len() as int) == t@.drop_first());
        }
    }
    let lower_x: [char; 2] = ['0', 'x'];
    let upper_x: [char; 2] = ['0', 'X'];
    assert(lower_x@ == seq!['0', 'x']);
    assert(upper_x@ == seq!['0', 'X']);
    let mag = if text::starts_with(body, &lower_x) || text::starts_with(body, &upper_x) {
        let rest = vstd::slice::slice_subrange(body, 2, body.len());
        assert(rest@ == body@.skip(2));
        text::parse_radix(rest, 16, 0x8000_0000_0000_0000, 0x7fff_ffff_ffff_ffff)
    } else if body.len() > 0 && body[0] == '#' {
        let rest = vstd::slice::slice_subrange(body, 1, body.len());
        assert(rest@ == body@.drop_first());
        text::parse_radix(rest, 10, 0x8000_0000_0000_0000, 0x7fff_ffff_ffff_ffff)
    } else {
        None
    };
    match mag {
        Some(m) => {
            let m = m as i64;
            Some(
                if neg {
                    if m == i64::MIN {
                        m
                    } else {
                        -m
                    }
                } else {
                    m
                },
            )
        },
        None => None,
    }
}

/// `v` fits in `n` bytes read as a signed big-endian number.
pub open spec fn fits_signed(v: int, n: nat) -> bool {
    -(pow256(n) as int / 2) <= v < pow256(n) as int / 2
}

/// Fewest bytes that reproduce `v` under sign extension; zero uses none.
pub open spec fn imm_width(v: int) -> nat {
    if v == 0 {
        0
    } else if fits_signed(v, 1) {
        1
    } else if fits_signed(v, 2) {
        2
    } else if fits_signed(v, 3) {
        3
    } else if fits_signed(v, 4) {
        4
    } else if fits_signed(v, 5) {
        5
    } else if fits_signed(v, 6) {
        6
    } else if fits_signed(v, 7) {
        7
    } else {
        8
    }
}

/// An immediate takes the fewest bytes that hold it as a signed number:
/// none for zero; otherwise a width it fits in, and no narrower one fits.
pub proof fn law_imm_width_least(v: int, n: nat)
    requires
        i64::MIN <= v <= i64::MAX,
    ensures
        v == 0 <==> imm_width(v) == 0,
        v != 0 ==> fits_signed(v, imm_width(v)),
        v != 0 && 1 <= n < imm_width(v) ==> !fits_signed(v, n),
{
    reveal_with_fuel(pow256, 9);
    assert(pow256(8) == 0x1_0000_0000_0000_0000);
}

/// The immediate bytes of `v`: its low `imm_width(v)` bytes, big endian.
pub open spec fn imm_bytes_spec(v: int) -> Seq<u8> {
    be_bytes((v % pow256(imm_width(v)) as int) as nat, imm_width(v))
}

/// Sign-extend an `n`-byte big-endian value.
pub open spec fn sext(bits: nat, n: nat) -> int {
    if n == 0 {
        0
    } else if bits >= pow256(n) / 2 {
        bits - pow256(n)
    } else {
        bits as int
    }
}

/// `256^n` as a `u128`, for `n <= 8`.
pub fn pow256_u128(n: usize) -> (r: u128)
    requires
        n <= 8,
    ensures
        r == pow256(n as nat),
{
    let mut r: u128 = 1;
    let mut i: usize = 0;
    while i < n
        invariant
            i <= n <= 8,
            r == pow256(i as nat),
        decreases n - i,
    {
        proof {
            crate::vea_sim::memory::lemma_pow256_step(i as nat);
            crate::vea_sim::memory::lemma_pow256_le8((i + 1) as nat);
        }
        r = r * 256;
        i += 1;
    }
    r
}

/// The `n`-byte big-endian form of `u`.
pub fn be_bytes_exec(u: u128, n: usize) -> (out: Vec<u8>)
    requires
        n <= 8,
    ensures
        out@ == be_bytes(u as nat, n as nat),
{
    let mut out: Vec<u8> = Vec::new();
    let mut i: usize = 0;
    while i < n
        invariant
            i <= n <= 8,
            out@ == be_bytes(u as nat, n as nat).take(i as int),
        decreases n - i,
    {
        let div = pow256_u128(n - 1 - i);
        proof {
            crate::vea_sim::memory::lemma_pow256_pos((n - 1 - i) as nat);
        }
        let b = ((u / div) % 256) as u8;
        out.push(b);
        i += 1;
        assert(out@ =~= be_bytes(u as nat, n as nat).take(i as int));
    }
    assert(be_bytes(u as nat, n as nat).take(n as int) =~= be_bytes(u as nat, n as nat));
    out
}

/// Fewest big-endian bytes that reproduce `v` under sign extension. Zero
/// uses none.
pub fn imm_bytes(v: i64) -> (out: Vec<u8>)
    ensures
        out@ == imm_bytes_spec(v as int),
        out@.len() == imm_width(v as int),
        out@.len() <= 8,
{
    let n = imm_width_exec(v);
    let m = pow256_u128(n);
    proof {
        crate::vea_sim::memory::lemma_pow256_pos(n as nat);
        crate::vea_sim::memory::lemma_pow256_le8(n as nat);
    }
    let vi = v as i128;
    let mi = m as i128;
    let u: i128 = match vi.checked_rem_euclid(mi) {
        Some(u) => u,
        None => 0,
    };
    proof {
        vstd::arithmetic::div_mod::lemma_mod_bound(vi as int, mi as int);
    }
    be_bytes_exec(u as u128, n)
}

/// `imm_width`.
pub fn imm_width_exec(v: i64) -> (n: usize)
    ensures
        n == imm_width(v as int),
        n <= 8,
{
    if v == 0 {
        return 0;
    }
    let mut n: usize = 1;
    while n < 8
        invariant
            1 <= n <= 8,
            v != 0,
            forall|k: nat| 1 <= k < n ==> !fits_signed(v as int, k),
        decreases 8 - n,
    {
        proof {
            crate::vea_sim::memory::lemma_pow256_le8(n as nat);
        }
        let m = pow256_u128(n) as i128;
        let half = m / 2;
        if -half <= v as i128 && (v as i128) < half {
            proof {
                reveal_with_fuel(pow256, 9);
            }
            return n;
        }
        n += 1;
    }
    proof {
        reveal_with_fuel(pow256, 9);
    }
    8
}

/// Largest signed immediate width in bytes of a relative branch offset.
pub const REL_MAX: usize = 4;

/// Largest signed immediate width in bytes of an absolute reference.
pub const ABS_MAX: usize = 8;

/// Width of a resolved label value: the shortest signed width, at least one
/// byte; `None` when it is over the cap of its kind.
pub open spec fn sym_width_spec(value: int, relative: bool) -> Option<nat> {
    let cap: nat = if relative {
        REL_MAX as nat
    } else {
        ABS_MAX as nat
    };
    let n = if imm_width(value) >= 1 {
        imm_width(value)
    } else {
        1
    };
    if n > cap {
        None
    } else {
        Some(n)
    }
}

/// Shortest signed width in bytes that holds a resolved label value: at
/// least one byte, never more than the cap of its kind.
pub fn sym_width(value: i64, relative: bool) -> (r: Result<usize, String>)
    ensures
        match sym_width_spec(value as int, relative) {
            Some(n) => r == Ok::<usize, String>(n as usize),
            None => r is Err,
        },
{
    let cap: usize = if relative {
        REL_MAX
    } else {
        ABS_MAX
    };
    let w = imm_width_exec(value);
    let n: usize = if w >= 1 {
        w
    } else {
        1
    };
    if n > cap {
        let mut m = Msg::new(
            if relative {
                "relative branch offset "
            } else {
                "absolute address "
            },
        );
        m.signed(value);
        m.lit(" does not fit in ");
        m.dec(cap as u64);
        m.lit(" signed bytes");
        return Err(m.string());
    }
    Ok(n)
}

/// Depth of `[` nesting before position `i`.
pub open spec fn depth(s: Seq<char>, i: int) -> int
    decreases i,
{
    if i <= 0 {
        0
    } else {
        depth(s, i - 1) + if s[i - 1] == '[' {
            1int
        } else if s[i - 1] == ']' {
            -1int
        } else {
            0int
        }
    }
}

/// A comma outside brackets.
pub open spec fn is_sep(s: Seq<char>, i: int) -> bool {
    s[i] == ',' && depth(s, i) == 0
}

/// The next separator at or after `i`, or `s.len()`.
pub open spec fn next_sep(s: Seq<char>, i: int) -> int
    decreases s.len() - i,
{
    if i < 0 || i >= s.len() {
        s.len() as int
    } else if is_sep(s, i) {
        i
    } else {
        next_sep(s, i + 1)
    }
}

pub proof fn lemma_next_sep(s: Seq<char>, i: int)
    requires
        0 <= i <= s.len(),
    ensures
        i <= next_sep(s, i) <= s.len(),
    decreases s.len() - i,
{
    if i < s.len() && !is_sep(s, i) {
        lemma_next_sep(s, i + 1);
    }
}

/// The trimmed pieces between separators, from position `i` on.
pub open spec fn args_from(s: Seq<char>, i: int) -> Seq<Seq<char>>
    decreases s.len() - i,
{
    if i < 0 || i > s.len() {
        seq![]
    } else {
        let e = next_sep(s, i);
        if e >= s.len() {
            seq![trim(s.subrange(i, s.len() as int))]
        } else {
            proof {
                lemma_next_sep(s, i);
            }
            seq![trim(s.subrange(i, e))] + args_from(s, e + 1)
        }
    }
}

/// Split an operand list on commas that sit outside brackets.
pub open spec fn split_args_spec(s: Seq<char>) -> Seq<Seq<char>> {
    args_from(s, 0)
}

pub fn split_args(s: &[char]) -> (out: Vec<Vec<char>>)
    requires
        s@.len() <= i32::MAX,
    ensures
        out@.len() == split_args_spec(s@).len(),
        forall|k: int| 0 <= k < out@.len() ==> #[trigger] out@[k]@ == split_args_spec(s@)[k],
{
    let mut out: Vec<Vec<char>> = Vec::new();
    let mut d: i32 = 0;
    let mut start: usize = 0;
    let mut i: usize = 0;
    let ghost mut done: Seq<Seq<char>> = seq![];
    while i < s.len()
        invariant
            start <= i <= s@.len() <= i32::MAX,
            d == depth(s@, i as int),
            -(i as int) <= d <= i,
            split_args_spec(s@) == done + args_from(s@, start as int),
            next_sep(s@, start as int) == next_sep(s@, i as int),
            out@.len() == done.len(),
            forall|k: int| 0 <= k < out@.len() ==> #[trigger] out@[k]@ == done[k],
        decreases s.len() - i,
    {
        let c = s[i];
        if c == ',' && d == 0 {
            let piece = text::trim_slice(vstd::slice::slice_subrange(s, start, i));
            let v = text::copy_range(piece, 0, piece.len());
            proof {
                assert(piece@.subrange(0, piece@.len() as int) == piece@);
                assert(is_sep(s@, i as int));
                assert(args_from(s@, start as int) == seq![trim(s@.subrange(start as int, i as int))]
                    + args_from(s@, i + 1));
                assert(done + args_from(s@, start as int) == done.push(v@) + args_from(s@, i + 1));
                done = done.push(v@);
            }
            out.push(v);
            start = i + 1;
        }
        if c == '[' {
            d = d + 1;
        } else if c == ']' {
            d = d - 1;
        }
        i += 1;
    }
    let piece = text::trim_slice(vstd::slice::slice_subrange(s, start, s.len()));
    let v = text::copy_range(piece, 0, piece.len());
    proof {
        assert(piece@.subrange(0, piece@.len() as int) == piece@);
        assert(args_from(s@, start as int) == seq![v@]);
        done = done.push(v@);
    }
    out.push(v);
    out
}

/// Labels at the front of a statement: repeatedly, text up to a `:` that
/// trims to an identifier is a label, and the statement continues after the
/// `:`. Returns the labels and what is left.
pub open spec fn split_labels_spec(rest: Seq<char>) -> (Seq<Seq<char>>, Seq<char>)
    decreases rest.len(),
{
    let c = index_of(rest, ':', 0);
    if c >= rest.len() {
        (seq![], rest)
    } else {
        let name = trim(rest.take(c));
        if !is_ident_spec(name) {
            (seq![], rest)
        } else {
            proof {
                text::lemma_index_of(rest, ':', 0);
                text::lemma_trim_len(rest.skip(c + 1));
            }
            let (ls, r) = split_labels_spec(trim(rest.skip(c + 1)));
            (seq![name] + ls, r)
        }
    }
}

pub fn split_labels(rest: &[char]) -> (out: (Vec<Vec<char>>, Vec<char>))
    ensures
        out.0@.len() == split_labels_spec(rest@).0.len(),
        forall|k: int| 0 <= k < out.0@.len() ==> #[trigger] out.0@[k]@ == split_labels_spec(rest@).0[k],
        out.1@ == split_labels_spec(rest@).1,
{
    let mut labels: Vec<Vec<char>> = Vec::new();
    let mut cur: Vec<char> = text::copy_range(rest, 0, rest.len());
    let ghost mut done: Seq<Seq<char>> = seq![];
    assert(rest@.subrange(0, rest@.len() as int) == rest@);
    loop
        invariant
            split_labels_spec(rest@) == (done + split_labels_spec(cur@).0, split_labels_spec(cur@).1),
            labels@.len() == done.len(),
            forall|k: int| 0 <= k < labels@.len() ==> #[trigger] labels@[k]@ == done[k],
        decreases cur@.len(),
    {
        let c = match text::find_char(cur.as_slice(), ':', 0) {
            Some(c) => c,
            None => {
                assert(done + Seq::<Seq<char>>::empty() == done);
                return (labels, cur);
            },
        };
        assert(c < cur@.len() && cur@.len() == cur.len());
        let name = text::trim_slice(vstd::slice::slice_subrange(cur.as_slice(), 0, c));
        if !is_ident(name) {
            assert(done + Seq::<Seq<char>>::empty() == done);
            return (labels, cur);
        }
        let nv = text::copy_range(name, 0, name.len());
        let after = text::trim_slice(vstd::slice::slice_subrange(cur.as_slice(), c + 1, cur.len()));
        let next = text::copy_range(after, 0, after.len());
        proof {
            assert(name@.subrange(0, name@.len() as int) == name@);
            assert(after@.subrange(0, after@.len() as int) == after@);
            assert(cur@.subrange(0, c as int) == cur@.take(c as int));
            assert(cur@.subrange(c + 1, cur@.len() as int) == cur@.skip(c + 1));
            text::lemma_trim_len(cur@.skip(c + 1));
            let (ls, r) = split_labels_spec(next@);
            assert(split_labels_spec(cur@) == (seq![nv@] + ls, r));
            assert(done + (seq![nv@] + ls) == done.push(nv@) + ls);
            done = done.push(nv@);
        }
        labels.push(nv);
        cur = next;
    }
}

} // verus!
