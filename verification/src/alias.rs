//! Aliases: the short codes under which long URLs are filed.

use vstd::prelude::*;

verus! {

/// Every alias has exactly this many characters.
pub const ALIAS_LEN: usize = 6;

/// The alias alphabet: ASCII letters of either case and ASCII digits.
pub open spec fn is_alias_char(c: char) -> bool {
    ('a' <= c && c <= 'z') || ('A' <= c && c <= 'Z') || ('0' <= c && c <= '9')
}

/// A well-formed alias: six characters, each from the alias alphabet.
pub open spec fn is_alias(s: Seq<char>) -> bool {
    &&& s.len() == ALIAS_LEN
    &&& forall|i: int| 0 <= i < s.len() ==> is_alias_char(#[trigger] s[i])
}

/// `String::push` appends one character to the end of the string.
pub assume_specification[ String::push ](s: &mut String, ch: char)
    ensures
        final(s)@ == old(s)@.push(ch),
;

/// One draw from `rand`'s `Alphanumeric` distribution on the thread-local
/// generator. The distribution hands out a byte of its table of ASCII letters
/// and digits; which one is left open, as the draw is random. The generator
/// seeds itself from the operating system on first use and panics if that
/// fails, which nothing here can rule out.
#[verifier::external_body]
fn sample_alphanumeric() -> (b: u8)
    ensures
        is_alias_char(b as char),
{
    rand::Rng::sample(&mut rand::thread_rng(), rand::distributions::Alphanumeric)
}

/// Draws a fresh random alias. The draw does not look at any URL.
pub fn generate_alias() -> (alias: String)
    ensures
        is_alias(alias@),
{
    let mut alias = String::new();
    let mut n: usize = 0;
    while n < ALIAS_LEN
        invariant
            n <= ALIAS_LEN,
            alias@.len() == n,
            forall|i: int| 0 <= i < alias@.len() ==> is_alias_char(#[trigger] alias@[i]),
        decreases ALIAS_LEN - n,
    {
        let b: u8 = sample_alphanumeric();
        alias.push(b as char);
        n += 1;
    }
    alias
}

} // verus!
