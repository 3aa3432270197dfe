//! Character-level helpers shared by both assemblers: splitting source text
//! into characters and lines, trimming, ASCII classification and building
//! `String`s from characters. Every function states what it computes over
//! `Seq<char>`.
use vstd::prelude::*;
use vstd::std_specs::iter::IteratorSpec;

verus! {

/// Whitespace exactly as `char::is_whitespace` defines it (Unicode White_Space).
pub open spec fn spec_is_ws(c: char) -> bool {
    let u = c as u32;
    ||| 0x09 <= u <= 0x0D
    ||| u == 0x20
    ||| u == 0x85
    ||| u == 0xA0
    ||| u == 0x1680
    ||| 0x2000 <= u <= 0x200A
    ||| u == 0x2028
    ||| u == 0x2029
    ||| u == 0x202F
    ||| u == 0x205F
    ||| u == 0x3000
}

/// `char::is_whitespace`.
pub fn is_ws(c: char) -> (b: bool)
    ensures
        b == spec_is_ws(c),
{
    let u = c as u32;
    (0x09 <= u && u <= 0x0D) || u == 0x20 || u == 0x85 || u == 0xA0 || u == 0x1680 || (0x2000
        <= u && u <= 0x200A) || u == 0x2028 || u == 0x2029 || u == 0x202F || u == 0x205F || u
        == 0x3000
}

pub open spec fn spec_is_alpha(c: char) -> bool {
    ('a' as u32 <= c as u32 <= 'z' as u32) || ('A' as u32 <= c as u32 <= 'Z' as u32)
}

pub open spec fn spec_is_digit(c: char) -> bool {
    '0' as u32 <= c as u32 <= '9' as u32
}

pub open spec fn spec_is_alnum(c: char) -> bool {
    spec_is_alpha(c) || spec_is_digit(c)
}

/// `char::is_ascii_alphabetic`.
pub fn is_alpha(c: char) -> (b: bool)
    ensures
        b == spec_is_alpha(c),
{
    let u = c as u32;
    ('a' as u32 <= u && u <= 'z' as u32) || ('A' as u32 <= u && u <= 'Z' as u32)
}

/// `char::is_ascii_digit`.
pub fn is_digit(c: char) -> (b: bool)
    ensures
        b == spec_is_digit(c),
{
    let u = c as u32;
    '0' as u32 <= u && u <= '9' as u32
}

/// `char::is_ascii_alphanumeric`.
pub fn is_alnum(c: char) -> (b: bool)
    ensures
        b == spec_is_alnum(c),
{
    is_alpha(c) || is_digit(c)
}

/// `char::to_ascii_lowercase`: upper-case ASCII letters map to lower case,
/// everything else is unchanged.
pub open spec fn spec_lower_char(c: char) -> char {
    if 'A' as u32 <= c as u32 <= 'Z' as u32 {
        ((c as u32) + 32) as char
    } else {
        c
    }
}

pub fn lower_char(c: char) -> (r: char)
    ensures
        r == spec_lower_char(c),
{
    match c {
        'A' => 'a',
        'B' => 'b',
        'C' => 'c',
        'D' => 'd',
        'E' => 'e',
        'F' => 'f',
        'G' => 'g',
        'H' => 'h',
        'I' => 'i',
        'J' => 'j',
        'K' => 'k',
        'L' => 'l',
        'M' => 'm',
        'N' => 'n',
        'O' => 'o',
        'P' => 'p',
        'Q' => 'q',
        'R' => 'r',
        'S' => 's',
        'T' => 't',
        'U' => 'u',
        'V' => 'v',
        'W' => 'w',
        'X' => 'x',
        'Y' => 'y',
        'Z' => 'z',
        _ => c,
    }
}

/// `str::to_ascii_lowercase` over characters.
pub open spec fn spec_lower(s: Seq<char>) -> Seq<char> {
    s.map_values(|c: char| spec_lower_char(c))
}

pub fn lower(s: &[char]) -> (out: Vec<char>)
    ensures
        out@ == spec_lower(s@),
{
    let mut out: Vec<char> = Vec::new();
    let mut i: usize = 0;
    while i < s.len()
        invariant
            i <= s@.len(),
            out@ == spec_lower(s@.take(i as int)),
        decreases s.len() - i,
    {
        out.push(lower_char(s[i]));
        i += 1;
        assert(s@.take(i as int) == s@.take((i - 1) as int).push(s@[i - 1]));
    }
    assert(s@.take(i as int) == s@);
    out
}

/// Characters of a string slice, in order.
pub fn str_chars(s: &str) -> (out: Vec<char>)
    ensures
        out@ == s@,
{
    broadcast use vstd::string::group_string_axioms;

    let mut out: Vec<char> = Vec::new();
    for c in iter: s.chars()
        invariant
            out@ == iter.seq().take(iter.index() as int),
    {
        out.push(c);
    }
    out
}

/// `String::push`.
#[verifier::external_body]
pub fn push_char(s: &mut String, c: char)
    ensures
        final(s)@ == old(s)@.push(c),
{
    s.push(c)
}

/// A `String` holding exactly the given characters.
pub fn string_of(cs: &[char]) -> (s: String)
    ensures
        s@ == cs@,
{
    let mut s = String::new();
    let mut i: usize = 0;
    while i < cs.len()
        invariant
            i <= cs@.len(),
            s@ == cs@.take(i as int),
        decreases cs.len() - i,
    {
        push_char(&mut s, cs[i]);
        i += 1;
        assert(cs@.take(i as int) == cs@.take((i - 1) as int).push(cs@[i - 1]));
    }
    assert(cs@.take(i as int) == cs@);
    s
}

/// Appends characters to a `String`.
pub fn push_chars(s: &mut String, cs: &[char])
    ensures
        final(s)@ == old(s)@ + cs@,
{
    let ghost start = s@;
    let mut i: usize = 0;
    while i < cs.len()
        invariant
            i <= cs@.len(),
            s@ == start + cs@.take(i as int),
        decreases cs.len() - i,
    {
        push_char(s, cs[i]);
        i += 1;
        assert(cs@.take(i as int) == cs@.take((i - 1) as int).push(cs@[i - 1]));
    }
    assert(cs@.take(i as int) == cs@);
}

/// Copy of `s[lo..hi]`.
pub fn copy_range(s: &[char], lo: usize, hi: usize) -> (out: Vec<char>)
    requires
        lo <= hi <= s@.len(),
    ensures
        out@ == s@.subrange(lo as int, hi as int),
{
    let mut out: Vec<char> = Vec::new();
    let mut i: usize = lo;
    while i < hi
        invariant
            lo <= i <= hi <= s@.len(),
            out@ == s@.subrange(lo as int, i as int),
        decreases hi - i,
    {
        out.push(s[i]);
        i += 1;
        assert(s@.subrange(lo as int, i as int) == s@.subrange(lo as int, (i - 1) as int).push(
            s@[i - 1],
        ));
    }
    out
}

/// Leading whitespace removed (`str::trim_start`).
pub open spec fn trim_start(s: Seq<char>) -> Seq<char>
    decreases s.len(),
{
    if s.len() > 0 && spec_is_ws(s[0]) {
        trim_start(s.drop_first())
    } else {
        s
    }
}

/// Trailing whitespace removed (`str::trim_end`).
pub open spec fn trim_end(s: Seq<char>) -> Seq<char>
    decreases s.len(),
{
    if s.len() > 0 && spec_is_ws(s.last()) {
        trim_end(s.drop_last())
    } else {
        s
    }
}

/// Whitespace removed at both ends (`str::trim`).
pub open spec fn trim(s: Seq<char>) -> Seq<char> {
    trim_end(trim_start(s))
}

proof fn lemma_trim_start_skip(s: Seq<char>, k: int)
    requires
        0 <= k <= s.len(),
        forall|j: int| 0 <= j < k ==> spec_is_ws(#[trigger] s[j]),
    ensures
        trim_start(s) == trim_start(s.skip(k)),
    decreases k,
{
    if k > 0 {
        assert(s.drop_first().skip(k - 1) == s.skip(k));
        lemma_trim_start_skip(s.drop_first(), k - 1);
    } else {
        assert(s.skip(0) == s);
    }
}

proof fn lemma_trim_end_take(s: Seq<char>, k: int)
    requires
        0 <= k <= s.len(),
        forall|j: int| k <= j < s.len() ==> spec_is_ws(#[trigger] s[j]),
    ensures
        trim_end(s) == trim_end(s.take(k)),
    decreases s.len() - k,
{
    if k < s.len() {
        assert(s.drop_last().take(k) == s.take(k));
        lemma_trim_end_take(s.drop_last(), k);
    } else {
        assert(s.take(k) == s);
    }
}

pub proof fn lemma_trim_len(s: Seq<char>)
    ensures
        trim_start(s).len() <= s.len(),
        trim_end(s).len() <= s.len(),
        trim(s).len() <= s.len(),
    decreases s.len(),
{
    if s.len() > 0 {
        lemma_trim_len(s.drop_first());
        lemma_trim_len(s.drop_last());
    }
    lemma_trim_end_len(trim_start(s));
}

proof fn lemma_trim_end_len(s: Seq<char>)
    ensures
        trim_end(s).len() <= s.len(),
    decreases s.len(),
{
    if s.len() > 0 {
        lemma_trim_end_len(s.drop_last());
    }
}

proof fn lemma_trim_start_head(s: Seq<char>)
    ensures
        trim_start(s).len() > 0 ==> !spec_is_ws(trim_start(s)[0]),
    decreases s.len(),
{
    if s.len() > 0 && spec_is_ws(s[0]) {
        lemma_trim_start_head(s.drop_first());
    }
}

proof fn lemma_trim_end_shape(s: Seq<char>)
    ensures
        trim_end(s).len() <= s.len(),
        trim_end(s) == s.take(trim_end(s).len() as int),
        trim_end(s).len() > 0 ==> !spec_is_ws(trim_end(s).last()),
    decreases s.len(),
{
    if s.len() > 0 && spec_is_ws(s.last()) {
        lemma_trim_end_shape(s.drop_last());
        assert(s.drop_last().take(trim_end(s).len() as int) == s.take(trim_end(s).len() as int));
    } else {
        assert(s.take(s.len() as int) == s);
    }
}

/// Trimming twice is trimming once.
pub proof fn lemma_trim_idem(s: Seq<char>)
    ensures
        trim(trim(s)) == trim(s),
{
    let t = trim_start(s);
    lemma_trim_start_head(s);
    lemma_trim_end_shape(t);
    let u = trim_end(t);
    if u.len() > 0 {
        assert(u[0] == t[0]);
    }
    assert(trim_start(u) == u);
    assert(trim_end(u) == u);
}

/// Index of the first non-whitespace character, or `s.len()`.
pub fn skip_ws(s: &[char], from: usize) -> (i: usize)
    requires
        from <= s@.len(),
    ensures
        from <= i <= s@.len(),
        forall|j: int| from <= j < i ==> spec_is_ws(#[trigger] s@[j]),
        i < s@.len() ==> !spec_is_ws(s@[i as int]),
{
    let mut i = from;
    while i < s.len() && is_ws(s[i])
        invariant
            from <= i <= s@.len(),
            forall|j: int| from <= j < i ==> spec_is_ws(#[trigger] s@[j]),
        decreases s.len() - i,
    {
        i += 1;
    }
    i
}

/// `str::trim_start`.
pub fn trim_start_slice(s: &[char]) -> (out: &[char])
    ensures
        out@ == trim_start(s@),
{
    let i = skip_ws(s, 0);
    proof {
        lemma_trim_start_skip(s@, i as int);
    }
    vstd::slice::slice_subrange(s, i, s.len())
}

/// `str::trim`.
pub fn trim_slice(s: &[char]) -> (out: &[char])
    ensures
        out@ == trim(s@),
{
    let t = trim_start_slice(s);
    let mut j = t.len();
    while j > 0 && is_ws(t[j - 1])
        invariant
            j <= t@.len(),
            forall|k: int| j <= k < t@.len() ==> spec_is_ws(#[trigger] t@[k]),
        decreases j,
    {
        j -= 1;
    }
    proof {
        lemma_trim_end_take(t@, j as int);
        if j > 0 {
            assert(t@.take(j as int).last() == t@[j - 1]);
        }
    }
    vstd::slice::slice_subrange(t, 0, j)
}

/// Whether `s` starts with `p`.
pub open spec fn has_prefix(s: Seq<char>, p: Seq<char>) -> bool {
    p.len() <= s.len() && s.take(p.len() as int) == p
}

pub fn starts_with(s: &[char], p: &[char]) -> (b: bool)
    ensures
        b == has_prefix(s@, p@),
{
    if p.len() > s.len() {
        return false;
    }
    let mut i: usize = 0;
    while i < p.len()
        invariant
            i <= p@.len() <= s@.len(),
            forall|j: int| 0 <= j < i ==> s@[j] == p@[j],
        decreases p.len() - i,
    {
        if s[i] != p[i] {
            assert(s@.take(p@.len() as int)[i as int] != p@[i as int]);
            return false;
        }
        i += 1;
    }
    assert(s@.take(p@.len() as int) =~= p@);
    true
}

/// Whether two character sequences are equal.
pub fn chars_eq(a: &[char], b: &[char]) -> (r: bool)
    ensures
        r == (a@ == b@),
{
    if a.len() != b.len() {
        return false;
    }
    let r = starts_with(a, b);
    proof {
        if r {
            assert(a@.take(b@.len() as int) == a@);
        }
        if a@ == b@ {
            assert(a@.take(b@.len() as int) =~= b@);
        }
    }
    r
}

/// Index of the first `c` at or after `i`, or `s.len()` when there is none.
pub open spec fn index_of(s: Seq<char>, c: char, i: int) -> int
    decreases s.len() - i,
{
    if i < 0 || i >= s.len() {
        s.len() as int
    } else if s[i] == c {
        i
    } else {
        index_of(s, c, i + 1)
    }
}

pub proof fn lemma_index_of(s: Seq<char>, c: char, i: int)
    requires
        0 <= i <= s.len(),
    ensures
        i <= index_of(s, c, i) <= s.len(),
        index_of(s, c, i) < s.len() ==> s[index_of(s, c, i)] == c,
        forall|j: int| i <= j < index_of(s, c, i) ==> s[j] != c,
    decreases s.len() - i,
{
    if i < s.len() && s[i] != c {
        lemma_index_of(s, c, i + 1);
    }
}

/// Index of the first occurrence of `c` at or after `from`, if any.
pub fn find_char(s: &[char], c: char, from: usize) -> (r: Option<usize>)
    requires
        from <= s@.len(),
    ensures
        match r {
            Some(i) => i == index_of(s@, c, from as int) && i < s@.len(),
            None => index_of(s@, c, from as int) == s@.len(),
        },
{
    let mut i = from;
    while i < s.len()
        invariant
            from <= i <= s@.len(),
            index_of(s@, c, from as int) == index_of(s@, c, i as int),
        decreases s.len() - i,
    {
        if s[i] == c {
            return Some(i);
        }
        i += 1;
    }
    None
}

/// The digit character for a value below 16 (lower-case hex letters).
pub open spec fn digit_char(d: nat) -> char {
    if d < 10 {
        ((d + 48) as u32) as char
    } else {
        ((d + 87) as u32) as char
    }
}

/// Digits of `v` in base `b` (2..=16), most significant first, with no
/// leading zeros; zero is the single digit `0`.
pub open spec fn digits(v: nat, b: nat) -> Seq<char>
    recommends
        2 <= b <= 16,
    decreases v,
{
    if b < 2 || v < b {
        seq![digit_char(v % 16)]
    } else {
        proof {
            vstd::arithmetic::div_mod::lemma_div_decreases(v as int, b as int);
        }
        digits(v / b, b).push(digit_char(v % b))
    }
}

/// `s` left-padded with `0` to at least `w` characters.
pub open spec fn zero_pad(s: Seq<char>, w: nat) -> Seq<char> {
    if s.len() >= w {
        s
    } else {
        Seq::new((w - s.len()) as nat, |i: int| '0') + s
    }
}

fn digit_of(d: u64) -> (c: char)
    requires
        d < 16,
    ensures
        c == digit_char(d as nat),
{
    if d < 10 {
        char_of(d as u32 + 48)
    } else {
        char_of(d as u32 + 87)
    }
}

fn char_of(u: u32) -> (c: char)
    requires
        48 <= u <= 57 || 97 <= u <= 102,
    ensures
        c == u as char,
{
    match u {
        48 => '0',
        49 => '1',
        50 => '2',
        51 => '3',
        52 => '4',
        53 => '5',
        54 => '6',
        55 => '7',
        56 => '8',
        57 => '9',
        97 => 'a',
        98 => 'b',
        99 => 'c',
        100 => 'd',
        101 => 'e',
        _ => 'f',
    }
}

/// Digits of `v` in base `b`, zero-padded to `w`.
pub fn fmt_radix(v: u64, b: u64, w: usize) -> (out: Vec<char>)
    requires
        2 <= b <= 16,
        w <= 64,
    ensures
        out@ == zero_pad(digits(v as nat, b as nat), w as nat),
{
    // collect least significant digit first
    let mut rev: Vec<char> = Vec::new();
    let mut x = v;
    let ghost mut tail: Seq<char> = Seq::empty();
    while x >= b
        invariant
            2 <= b <= 16,
            digits(v as nat, b as nat) == digits(x as nat, b as nat) + tail,
            rev@ == tail.reverse(),
        decreases x,
    {
        let d = x % b;
        proof {
            assert(digits(x as nat, b as nat) == digits((x / b) as nat, b as nat).push(
                digit_char(d as nat),
            ));
            assert(digits(x as nat, b as nat) + tail == digits((x / b) as nat, b as nat) + (seq![
                digit_char(d as nat)] + tail));
            assert((seq![digit_char(d as nat)] + tail).reverse() == tail.reverse().push(
                digit_char(d as nat),
            )) by {
                assert((seq![digit_char(d as nat)] + tail).reverse() =~= tail.reverse().push(
                    digit_char(d as nat),
                ));
            }
            tail = seq![digit_char(d as nat)] + tail;
        }
        rev.push(digit_of(d));
        x = x / b;
    }
    proof {
        assert(digits(x as nat, b as nat) == seq![digit_char(x as nat % 16)]);
        assert(x as nat % 16 == x as nat);
    }
    rev.push(digit_of(x));
    let ghost all = seq![digit_char(x as nat)] + tail;
    assert(rev@ =~= all.reverse());
    assert(all == digits(v as nat, b as nat));
    let mut out: Vec<char> = Vec::new();
    let n = rev.len();
    let mut k: usize = n;
    while k < w
        invariant
            n == rev@.len(),
            w <= 64,
            n <= k,
            k <= w || k == n,
            out@ == Seq::new((k - n) as nat, |i: int| '0'),
        decreases w - k,
    {
        out.push('0');
        k += 1;
        assert(out@ =~= Seq::new((k - n) as nat, |i: int| '0'));
    }
    let mut i: usize = n;
    let ghost pad = out@;
    while i > 0
        invariant
            i <= n == rev@.len(),
            out@ == pad + rev@.reverse().take((n - i) as int),
        decreases i,
    {
        i -= 1;
        out.push(rev[i]);
        assert(rev@.reverse().take((n - i) as int) =~= rev@.reverse().take((n - i - 1) as int).push(
            rev@[i as int],
        ));
    }
    assert(rev@.reverse().take(n as int) =~= rev@.reverse());
    assert(rev@.reverse() =~= all) by {
        assert(rev@ == all.reverse());
        assert(all.reverse().reverse() =~= all);
    }
    if n >= w {
        assert(pad =~= Seq::<char>::empty());
    }
    assert(out@ =~= zero_pad(all, w as nat));
    out
}

/// Decimal digits of a 128-bit `v`.
pub fn fmt_dec_u128(v: u128) -> (out: Vec<char>)
    ensures
        out@ == digits(v as nat, 10),
{
    let mut rev: Vec<char> = Vec::new();
    let mut x = v;
    let ghost mut tail: Seq<char> = Seq::empty();
    while x >= 10
        invariant
            digits(v as nat, 10) == digits(x as nat, 10) + tail,
            rev@ == tail.reverse(),
        decreases x,
    {
        let d = x % 10;
        proof {
            assert(digits(x as nat, 10) == digits((x / 10) as nat, 10).push(digit_char(d as nat)));
            assert(digits(x as nat, 10) + tail == digits((x / 10) as nat, 10) + (seq![
                digit_char(d as nat)] + tail));
            assert((seq![digit_char(d as nat)] + tail).reverse() =~= tail.reverse().push(
                digit_char(d as nat),
            ));
            tail = seq![digit_char(d as nat)] + tail;
        }
        rev.push(digit_of(d as u64));
        x = x / 10;
    }
    proof {
        assert(digits(x as nat, 10) == seq![digit_char(x as nat % 16)]);
        assert(x as nat % 16 == x as nat);
    }
    rev.push(digit_of(x as u64));
    let ghost all = seq![digit_char(x as nat)] + tail;
    assert(rev@ =~= all.reverse());
    let n = rev.len();
    let mut out: Vec<char> = Vec::new();
    let mut i: usize = n;
    while i > 0
        invariant
            i <= n == rev@.len(),
            out@ == rev@.reverse().take((n - i) as int),
        decreases i,
    {
        i -= 1;
        out.push(rev[i]);
        assert(rev@.reverse().take((n - i) as int) =~= rev@.reverse().take((n - i - 1) as int).push(
            rev@[i as int],
        ));
    }
    assert(rev@.reverse().take(n as int) =~= rev@.reverse());
    assert(rev@.reverse() =~= all) by {
        assert(all.reverse().reverse() =~= all);
    }
    out
}

/// Decimal digits of `v`.
pub fn fmt_dec(v: u64) -> (out: Vec<char>)
    ensures
        out@ == digits(v as nat, 10),
{
    fmt_radix(v, 10, 0)
}

/// `v` as `0x`-prefixed lower-case hex, digits zero-padded to `w`.
pub fn fmt_hex_prefixed(v: u64, w: usize) -> (out: Vec<char>)
    requires
        w <= 64,
    ensures
        out@ == seq!['0', 'x'] + zero_pad(digits(v as nat, 16), w as nat),
{
    let d = fmt_radix(v, 16, w);
    let mut out: Vec<char> = Vec::new();
    out.push('0');
    out.push('x');
    let mut i: usize = 0;
    while i < d.len()
        invariant
            i <= d@.len(),
            out@ == seq!['0', 'x'] + d@.take(i as int),
        decreases d.len() - i,
    {
        out.push(d[i]);
        i += 1;
        assert(d@.take(i as int) =~= d@.take((i - 1) as int).push(d@[i - 1]));
    }
    assert(d@.take(i as int) =~= d@);
    out
}

/// Value of a digit character in any radix up to 36, if it is one.
pub open spec fn digit_value(c: char) -> Option<nat> {
    let u = c as u32;
    if '0' as u32 <= u <= '9' as u32 {
        Some((u - '0' as u32) as nat)
    } else if 'a' as u32 <= u <= 'z' as u32 {
        Some((u - 'a' as u32 + 10) as nat)
    } else if 'A' as u32 <= u <= 'Z' as u32 {
        Some((u - 'A' as u32 + 10) as nat)
    } else {
        None
    }
}

/// Whether `c` is a digit of radix `r`.
pub open spec fn is_radix_digit(c: char, r: nat) -> bool {
    digit_value(c) matches Some(d) && d < r
}

/// Value of a digit string (most significant first) in radix `r`.
pub open spec fn digits_value(ds: Seq<char>, r: nat) -> nat
    decreases ds.len(),
{
    if ds.len() == 0 {
        0
    } else {
        digits_value(ds.drop_last(), r) * r + digit_value(ds.last()).unwrap_or(0)
    }
}

/// The text after an optional leading sign.
pub open spec fn unsigned_part(s: Seq<char>) -> Seq<char> {
    if s.len() > 0 && (s[0] == '-' || s[0] == '+') {
        s.drop_first()
    } else {
        s
    }
}

/// Every character is a digit of radix `r`.
pub open spec fn all_radix_digits(ds: Seq<char>, r: nat) -> bool {
    forall|i: int| 0 <= i < ds.len() ==> is_radix_digit(#[trigger] ds[i], r)
}

/// What `from_str_radix` accepts: an optional `+` or `-`, then one or more
/// digits of radix `r`, with a value in `lo..=hi`.
pub open spec fn parse_radix_spec(s: Seq<char>, r: nat, lo: int, hi: int) -> Option<int> {
    let neg = s.len() > 0 && s[0] == '-';
    let ds = unsigned_part(s);
    if ds.len() == 0 || !all_radix_digits(ds, r) {
        None
    } else {
        let m = digits_value(ds, r) as int;
        let v = if neg {
            -m
        } else {
            m
        };
        if lo <= v <= hi {
            Some(v)
        } else {
            None
        }
    }
}

fn digit_value_exec(c: char) -> (d: Option<u32>)
    ensures
        match digit_value(c) {
            Some(v) => d == Some(v as u32),
            None => d is None,
        },
{
    let u = c as u32;
    if '0' as u32 <= u && u <= '9' as u32 {
        Some(u - '0' as u32)
    } else if 'a' as u32 <= u && u <= 'z' as u32 {
        Some(u - 'a' as u32 + 10)
    } else if 'A' as u32 <= u && u <= 'Z' as u32 {
        Some(u - 'A' as u32 + 10)
    } else {
        None
    }
}

proof fn lemma_digits_value_mono(ds: Seq<char>, r: nat, k: int)
    requires
        0 <= k <= ds.len(),
        r >= 1,
    ensures
        digits_value(ds.take(k), r) <= digits_value(ds, r),
    decreases ds.len() - k,
{
    if k < ds.len() {
        lemma_digits_value_mono(ds.drop_last(), r, k);
        assert(ds.drop_last().take(k) == ds.take(k));
        let p = digits_value(ds.drop_last(), r);
        assert(p <= p * r) by (nonlinear_arith)
            requires
                r >= 1,
        ;
    } else {
        assert(ds.take(k) == ds);
    }
}

/// `from_str_radix` for a signed integer type whose range is `lo..=hi`
/// (given as `-lo_mag` and `hi`).
pub fn parse_radix(s: &[char], r: u32, lo_mag: u128, hi: u128) -> (v: Option<i128>)
    requires
        2 <= r <= 36,
        36 <= hi < lo_mag <= 0x8000_0000_0000_0000_0000_0000_0000_0000,
    ensures
        match parse_radix_spec(s@, r as nat, -(lo_mag as int), hi as int) {
            Some(x) => v == Some(x as i128),
            None => v is None,
        },
{
    let signed = s.len() > 0 && (s[0] == '-' || s[0] == '+');
    let neg = s.len() > 0 && s[0] == '-';
    let start: usize = if signed {
        1
    } else {
        0
    };
    let ghost ds = unsigned_part(s@);
    if start >= s.len() {
        return None;
    }
    let limit: u128 = if neg {
        lo_mag
    } else {
        hi
    };
    let mut m: u128 = 0;
    let mut i: usize = start;
    let mut over = false;
    while i < s.len()
        invariant
            start <= i <= s@.len(),
            2 <= r <= 36,
            ds == s@.subrange(start as int, s@.len() as int),
            ds == unsigned_part(s@),
            neg == (s@.len() > 0 && s@[0] == '-'),
            limit == if neg { lo_mag } else { hi },
            forall|j: int| 0 <= j < i - start ==> is_radix_digit(#[trigger] ds[j], r as nat),
            !over ==> m == digits_value(ds.take(i - start), r as nat),
            !over ==> m <= limit,
            over ==> digits_value(ds.take(i - start), r as nat) > limit,
            36 <= limit <= 0x8000_0000_0000_0000_0000_0000_0000_0000,
        decreases s.len() - i,
    {
        proof {
            assert(ds[i - start] == s@[i as int]);
        }
        let d = match digit_value_exec(s[i]) {
            Some(d) => d,
            None => {
                assert(!is_radix_digit(ds[i - start], r as nat));
                assert(!all_radix_digits(ds, r as nat));
                return None;
            },
        };
        if d >= r {
            assert(!is_radix_digit(ds[i - start], r as nat));
            assert(!all_radix_digits(ds, r as nat));
            return None;
        }
        proof {
            assert(ds[i - start] == s@[i as int]);
            assert(ds.take(i - start + 1).drop_last() == ds.take(i - start));
            assert(ds.take(i - start + 1).last() == s@[i as int]);
        }
        if !over {
            if m > (limit - d as u128) / r as u128 {
                over = true;
                proof {
                    assert(digits_value(ds.take(i - start + 1), r as nat) == m * r + d);
                    assert(m * r + d > limit) by (nonlinear_arith)
                        requires
                            m > (limit - d) / (r as int),
                            r >= 2,
                            d < r,
                            d <= limit,
                    ;
                }
            } else {
                proof {
                    assert(m * r + d <= limit) by (nonlinear_arith)
                        requires
                            m <= (limit - d) / (r as int),
                            r >= 2,
                            d <= limit,
                    ;
                }
                m = m * r as u128 + d as u128;
            }
        } else {
            proof {
                let p = digits_value(ds.take(i - start), r as nat);
                assert(digits_value(ds.take(i - start + 1), r as nat) == p * r + d);
                assert(p * r + d >= p) by (nonlinear_arith)
                    requires
                        r >= 2,
                ;
            }
        }
        i += 1;
    }
    proof {
        assert(ds.take(i - start) == ds);
    }
    if over {
        return None;
    }
    if neg {
        if m == 0x8000_0000_0000_0000_0000_0000_0000_0000 {
            Some(i128::MIN)
        } else {
            Some(-(m as i128))
        }
    } else {
        Some(m as i128)
    }
}

} // verus!
