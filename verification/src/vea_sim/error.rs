//! Project-wide error handling, kept deliberately tiny: one error type that
//! carries an owned message and nothing else. Every fallible operation of the
//! simulator returns `Result<T>`.
use crate::text;
use vstd::prelude::*;

verus! {

/// The single error type. Its message is what a user is shown.
#[derive(Debug)]
pub struct Error(pub String);

/// Every fallible operation in the simulator returns this.
pub type Result<T> = std::result::Result<T, Error>;

impl Error {
    /// The message text.
    pub fn to_string(&self) -> (s: String)
        ensures
            s@ == self.0@,
    {
        self.0.clone()
    }
}

/// A message under construction, as characters.
pub struct Msg {
    pub chars: Vec<char>,
}

impl Msg {
    /// A message starting with `s`.
    pub fn new(s: &str) -> (m: Msg)
        ensures
            m.chars@ == s@,
    {
        Msg { chars: text::str_chars(s) }
    }

    /// Appends literal text.
    pub fn lit(&mut self, s: &str)
        ensures
            final(self).chars@ == old(self).chars@ + s@,
    {
        let mut t = text::str_chars(s);
        self.chars.append(&mut t);
    }

    /// Appends characters.
    pub fn chars(&mut self, cs: &[char])
        ensures
            final(self).chars@ == old(self).chars@ + cs@,
    {
        let mut t = text::copy_range(cs, 0, cs.len());
        assert(cs@.subrange(0, cs@.len() as int) == cs@);
        self.chars.append(&mut t);
    }

    /// The finished message as a `String`.
    pub fn string(self) -> (s: String)
        ensures
            s@ == self.chars@,
    {
        text::string_of(self.chars.as_slice())
    }

    /// Appends `v` in decimal.
    pub fn dec(&mut self, v: u64)
        ensures
            final(self).chars@ == old(self).chars@ + text::digits(v as nat, 10),
    {
        let mut t = text::fmt_dec(v);
        self.chars.append(&mut t);
    }

    /// Appends a signed `v` in decimal.
    pub fn signed(&mut self, v: i64)
        ensures
            final(self).chars@ == old(self).chars@ + if v < 0 {
                seq!['-'] + text::digits((-v) as nat, 10)
            } else {
                text::digits(v as nat, 10)
            },
    {
        if v < 0 {
            proof {
                reveal_strlit("-");
            }
            self.lit("-");
            let m: u64 = if v == i64::MIN {
                0x8000_0000_0000_0000
            } else {
                (-v) as u64
            };
            self.dec(m);
            assert(self.chars@ =~= old(self).chars@ + (seq!['-'] + text::digits((-v) as nat, 10)));
        } else {
            self.dec(v as u64);
        }
    }

    /// Appends `v` as `0x`-prefixed hex with at least `w` digits.
    pub fn hex(&mut self, v: u64, w: usize)
        requires
            w <= 64,
        ensures
            final(self).chars@ == old(self).chars@ + seq!['0', 'x'] + text::zero_pad(
                text::digits(v as nat, 16),
                w as nat,
            ),
    {
        let mut t = text::fmt_hex_prefixed(v, w);
        self.chars.append(&mut t);
        assert(self.chars@ =~= old(self).chars@ + seq!['0', 'x'] + text::zero_pad(
            text::digits(v as nat, 16),
            w as nat,
        ));
    }

    /// The finished error.
    pub fn error(self) -> (e: Error)
        ensures
            e.0@ == self.chars@,
    {
        Error(text::string_of(self.chars.as_slice()))
    }
}

} // verus!
