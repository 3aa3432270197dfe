//! The register file's names: `r0` to `r31`, matched case-insensitively.
use crate::text;
use vstd::prelude::*;

verus! {

/// Number of general-purpose registers.
pub const COUNT: u8 = 32;

/// Register width in bits.
pub const BITS: u32 = 64;

pub struct RegDef {
    pub index: u8,
    pub canonical: String,
    pub aliases: Vec<String>,
}

/// The canonical name of register `i`.
pub open spec fn canonical(i: nat) -> Seq<char> {
    seq!['r'] + text::digits(i, 10)
}

/// Every register, in index order, with its canonical name and (as yet
/// no) aliases.
pub fn all() -> (v: Vec<RegDef>)
    ensures
        v@.len() == COUNT,
        forall|i: int|
            0 <= i < COUNT ==> #[trigger] v@[i].index == i && v@[i].canonical@ == canonical(
                i as nat,
            ) && v@[i].aliases@.len() == 0,
{
    let mut v: Vec<RegDef> = Vec::new();
    let mut i: u8 = 0;
    while i < COUNT
        invariant
            i <= COUNT,
            v@.len() == i,
            forall|j: int|
                0 <= j < i ==> #[trigger] v@[j].index == j && v@[j].canonical@ == canonical(
                    j as nat,
                ) && v@[j].aliases@.len() == 0,
        decreases COUNT - i,
    {
        v.push(RegDef { index: i, canonical: name(i), aliases: alias_table(i) });
        i += 1;
    }
    v
}

/// Per-register ABI aliases. None until the ABI is decided.
fn alias_table(index: u8) -> (v: Vec<String>)
    ensures
        v@.len() == 0,
{
    Vec::new()
}

/// The first register (by index, from `i`) whose canonical name is `l`.
pub open spec fn lookup_from(l: Seq<char>, i: nat) -> Option<u8>
    decreases COUNT - i,
{
    if i >= COUNT {
        None
    } else if canonical(i) == l {
        Some(i as u8)
    } else {
        lookup_from(l, i + 1)
    }
}

/// A register name (canonical, compared case-insensitively) to its index.
pub open spec fn lookup_spec(name: Seq<char>) -> Option<u8> {
    lookup_from(text::spec_lower(name), 0)
}

/// Resolve a register name to its index.
pub fn lookup(name: &str) -> (r: Option<u8>)
    ensures
        r == lookup_spec(name@),
{
    let nc = text::str_chars(name);
    lookup_chars(nc.as_slice())
}

/// `lookup` over characters.
pub fn lookup_chars(tok: &[char]) -> (r: Option<u8>)
    ensures
        r == lookup_spec(tok@),
{
    let l = text::lower(tok);
    let mut i: u8 = 0;
    while i < COUNT
        invariant
            i <= COUNT,
            l@ == text::spec_lower(tok@),
            lookup_spec(tok@) == lookup_from(l@, i as nat),
        decreases COUNT - i,
    {
        let c = name(i);
        let cc = text::str_chars(c.as_str());
        if text::chars_eq(cc.as_slice(), l.as_slice()) {
            return Some(i);
        }
        i += 1;
    }
    None
}

/// Canonical name for an index; out of range, a placeholder.
pub fn name(index: u8) -> (s: String)
    ensures
        index < COUNT ==> s@ == canonical(index as nat),
        index >= COUNT ==> s@ == "invalid register index"@,
{
    if index < COUNT {
        let mut m = crate::vea_sim::error::Msg::new("r");
        m.dec(index as u64);
        proof {
            reveal_strlit("r");
        }
        assert(m.chars@ =~= canonical(index as nat));
        m.string()
    } else {
        text::string_of(text::str_chars("invalid register index").as_slice())
    }
}

/// The canonical name of a register: `r` and one or two decimal digits.
proof fn lemma_canonical_shape(i: nat)
    requires
        i < COUNT,
    ensures
        i < 10 ==> canonical(i) == seq!['r', text::digit_char(i)],
        i >= 10 ==> canonical(i) == seq!['r', text::digit_char(i / 10), text::digit_char(i % 10)],
        text::spec_lower(canonical(i)) == canonical(i),
{
    if i < 10 {
        assert(text::digits(i, 10) =~= seq![text::digit_char(i)]);
        assert(canonical(i) =~= seq!['r', text::digit_char(i)]);
    } else {
        assert(text::digits(i / 10, 10) =~= seq![text::digit_char(i / 10)]);
        assert(text::digits(i, 10) =~= seq![text::digit_char(i / 10), text::digit_char(i % 10)]);
        assert(canonical(i) =~= seq!['r', text::digit_char(i / 10), text::digit_char(i % 10)]);
    }
    assert(text::spec_lower(canonical(i)) =~= canonical(i));
}

/// Two registers below `COUNT` have different canonical names.
proof fn lemma_canonical_distinct(i: nat, j: nat)
    requires
        i < COUNT,
        j < COUNT,
        i != j,
    ensures
        canonical(i) != canonical(j),
{
    lemma_canonical_shape(i);
    lemma_canonical_shape(j);
    if i < 10 && j < 10 {
        assert(canonical(i)[1] != canonical(j)[1]);
    } else if i >= 10 && j >= 10 {
        if i / 10 != j / 10 {
            assert(canonical(i)[1] != canonical(j)[1]);
        } else {
            assert(canonical(i)[2] != canonical(j)[2]);
        }
    } else {
        assert(canonical(i).len() != canonical(j).len());
    }
}

proof fn lemma_lookup_from(i: nat, j: nat)
    requires
        j <= i < COUNT,
    ensures
        lookup_from(canonical(i), j) == Some(i as u8),
    decreases i - j,
{
    if j < i {
        lemma_canonical_distinct(i, j);
        lemma_lookup_from(i, j + 1);
    }
}

/// Every register's canonical name looks it up again, in any letter case:
/// the names are distinct and lower case.
pub proof fn law_register_names(i: u8, m: Seq<char>)
    requires
        i < COUNT,
    ensures
        lookup_spec(canonical(i as nat)) == Some(i),
        text::spec_lower(m) == canonical(i as nat) ==> lookup_spec(m) == Some(i),
{
    lemma_canonical_shape(i as nat);
    lemma_lookup_from(i as nat, 0);
}

} // verus!
