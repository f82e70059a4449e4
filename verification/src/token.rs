use vstd::prelude::*;
use rand::Rng;

use crate::text::string_of;

verus! {

/// Prefix of every aggregator token.
pub const TOKEN_PREFIX: &'static str = "cpm-";

/// Number of random hexadecimal digits after the prefix.
pub const TOKEN_DIGITS: usize = 32;

/// `c` is a lower-case hexadecimal digit.
pub open spec fn is_hex_digit(c: char) -> bool {
    ('0' <= c <= '9') || ('a' <= c <= 'f')
}

/// `t` has the shape of an aggregator token: `cpm-` followed by 32 lower-case hexadecimal
/// digits.
pub open spec fn is_token(t: Seq<char>) -> bool {
    &&& t.len() == 36
    &&& t.take(4) == TOKEN_PREFIX@
    &&& forall|i: int| 4 <= i < 36 ==> is_hex_digit(#[trigger] t[i])
}

/// `rand::Rng::gen_range(0..16)` on the thread's generator. Trusted: a value below 16; which
/// one is chance.
#[verifier::external_body]
fn random_nibble() -> (r: u32)
    ensures
        r < 16,
{
    rand::thread_rng().gen_range(0..16u32)
}

/// The lower-case hexadecimal digit of `n` (as `format!("{:x}")` writes it).
pub fn hex_digit(n: u32) -> (c: char)
    requires
        n < 16,
    ensures
        is_hex_digit(c),
        n < 10 ==> c as u32 == '0' as u32 + n,
        n >= 10 ==> c as u32 == 'a' as u32 + (n - 10),
{
    if n < 10 {
        ((48 + n) as u8) as char
    } else {
        ((87 + n) as u8) as char
    }
}

/// A fresh aggregator token: `cpm-` and 32 random hexadecimal digits.
pub fn generate_token() -> (t: String)
    ensures
        is_token(t@),
{
    let mut cs: Vec<char> = Vec::new();
    cs.push('c');
    cs.push('p');
    cs.push('m');
    cs.push('-');
    proof {
        reveal_strlit("cpm-");
    }
    let mut i: usize = 0;
    while i < TOKEN_DIGITS
        invariant
            0 <= i <= 32,
            cs@.len() == 4 + i,
            cs@.take(4) == TOKEN_PREFIX@,
            forall|j: int| 4 <= j < 4 + i ==> is_hex_digit(#[trigger] cs@[j]),
        decreases 32 - i,
    {
        let d = hex_digit(random_nibble());
        let ghost before = cs@;
        cs.push(d);
        assert(cs@.take(4) =~= before.take(4));
        i = i + 1;
    }
    string_of(cs.as_slice())
}

} // verus!
