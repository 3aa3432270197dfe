//! Errors are plain strings; layers that know the line number prefix it.
use crate::text;
use vstd::prelude::*;

verus! {

/// What every fallible step of this assembler returns.
pub type Result<T> = std::result::Result<T, String>;

/// `msg` prefixed with its source line.
pub open spec fn at_spec(line: nat, msg: Seq<char>) -> Seq<char> {
    "line "@ + text::digits(line, 10) + ": "@ + msg
}

/// Prefix a message with its source line, e.g. `line 12: unknown mnemonic`.
pub fn at(line: usize, msg: &str) -> (s: String)
    ensures
        s@ == at_spec(line as nat, msg@),
{
    let mut m = crate::vea_sim::error::Msg::new("line ");
    m.dec(line as u64);
    m.lit(": ");
    m.lit(msg);
    m.string()
}

/// `msg` followed by the quoted `text`, prefixed with its source line.
pub open spec fn quoted_spec(line: nat, msg: Seq<char>, text: Seq<char>) -> Seq<char> {
    at_spec(line, msg + seq![' ', '`'] + text + seq!['`'])
}

/// `msg` followed by the quoted `text`, prefixed with its source line.
pub fn at_quoted(line: usize, msg: &str, text: &[char]) -> (s: String)
    ensures
        s@ == quoted_spec(line as nat, msg@, text@),
{
    let mut m = crate::vea_sim::error::Msg::new("line ");
    m.dec(line as u64);
    m.lit(": ");
    m.lit(msg);
    let q: [char; 2] = [' ', '`'];
    m.chars(&q);
    m.chars(text);
    let e: [char; 1] = ['`'];
    m.chars(&e);
    assert(m.chars@ =~= at_spec(line as nat, msg@ + seq![' ', '`'] + text@ + seq!['`']));
    m.string()
}

} // verus!
