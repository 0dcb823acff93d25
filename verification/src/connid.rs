//! Connection identifiers: short, greppable base-62 tokens.
//!
//! A generator hands out one token per accepted socket. Every call consumes
//! a distinct, strictly increasing counter value, and the token is exactly
//! the five low-order base-62 digits of that value, highest digit first.
//! Five digits cover 62^5 (about 916 million) values, so within one run the
//! tokens are pairwise distinct; the counter seeds from the Unix time in
//! seconds so separate runs rarely collide when logs are merged.

use vstd::prelude::*;

use vstd::arithmetic::div_mod::lemma_breakdown;
use vstd::arithmetic::div_mod::lemma_fundamental_div_mod;
use vstd::arithmetic::div_mod::lemma_fundamental_div_mod_converse;
use vstd::arithmetic::div_mod::lemma_mod_bound;

use crate::text::push_char;

verus! {

/// The base-62 symbol for a value below 62: `0`-`9`, `A`-`Z`, `a`-`z`.
pub open spec fn base62_char(d: int) -> char
    recommends
        0 <= d < 62,
{
    if d < 10 {
        ((0x30 + d) as u8) as char
    } else if d < 36 {
        ((0x37 + d) as u8) as char
    } else {
        ((0x3D + d) as u8) as char
    }
}

/// The five low-order base-62 digits of a counter value, highest first.
pub open spec fn base62_token(v: int) -> Seq<char>
    recommends
        v >= 0,
{
    seq![
        base62_char((v / 14776336) % 62),
        base62_char((v / 238328) % 62),
        base62_char((v / 3844) % 62),
        base62_char((v / 62) % 62),
        base62_char(v % 62),
    ]
}

/// The value a base-62 symbol stands for; -1 for any other character.
pub open spec fn base62_value(c: char) -> int {
    if 0x30 <= c as int && c as int <= 0x39 {
        c as int - 0x30
    } else if 0x41 <= c as int && c as int <= 0x5A {
        c as int - 0x37
    } else if 0x61 <= c as int && c as int <= 0x7A {
        c as int - 0x3D
    } else {
        -1
    }
}

/// What a five-symbol token denotes, highest digit first.
pub open spec fn token_value(s: Seq<char>) -> int
    recommends
        s.len() == 5,
{
    base62_value(s[0]) * 14776336 + base62_value(s[1]) * 238328 + base62_value(s[2]) * 3844
        + base62_value(s[3]) * 62 + base62_value(s[4])
}

/// Each base-62 symbol reads back as its own value.
proof fn lemma_base62_char_value(d: int)
    requires
        0 <= d < 62,
    ensures
        base62_value(base62_char(d)) == d,
{
}

/// Law: a token determines its counter value modulo 62^5. Reading the five
/// digits back yields exactly the low-order part of the counter.
pub proof fn lemma_token_roundtrip(v: u64)
    ensures
        token_value(base62_token(v as int)) == (v as int) % 916132832,
{
    let n = v as int;
    lemma_base62_char_value((n / 14776336) % 62);
    lemma_base62_char_value((n / 238328) % 62);
    lemma_base62_char_value((n / 3844) % 62);
    lemma_base62_char_value((n / 62) % 62);
    lemma_base62_char_value(n % 62);
    assert(14776336 * 62 == 916132832);
    assert(238328 * 62 == 14776336);
    assert(3844 * 62 == 238328);
    assert(62 * 62 == 3844);
    lemma_breakdown(n, 14776336, 62);
    lemma_breakdown(n, 238328, 62);
    lemma_breakdown(n, 3844, 62);
    lemma_breakdown(n, 62, 62);
}

/// Law: counter values that differ modulo 62^5 give different tokens, so
/// any run of fewer than 62^5 consecutive counter values yields pairwise
/// distinct tokens.
pub proof fn lemma_token_injective(v1: u64, v2: u64)
    requires
        (v1 as int) % 916132832 != (v2 as int) % 916132832,
    ensures
        base62_token(v1 as int) != base62_token(v2 as int),
{
    lemma_token_roundtrip(v1);
    lemma_token_roundtrip(v2);
}

/// Law: counter values less than 62^5 apart always give distinct tokens.
/// A batch of calls, each consuming the next counter value, therefore
/// yields pairwise distinct tokens as long as the batch stays below 62^5.
pub proof fn lemma_nearby_tokens_distinct(v1: u64, v2: u64)
    requires
        v1 < v2,
        v2 - v1 < 916132832,
    ensures
        base62_token(v1 as int) != base62_token(v2 as int),
{
    let m = 916132832int;
    let a = v1 as int;
    let b = v2 as int;
    let d = b - a;
    lemma_fundamental_div_mod(a, m);
    lemma_mod_bound(a, m);
    let q = a / m;
    let r = a % m;
    if r + d < m {
        lemma_fundamental_div_mod_converse(b, m, q, r + d);
    } else {
        lemma_fundamental_div_mod_converse(b, m, q + 1, r + d - m);
    }
    lemma_token_injective(v1, v2);
}

/// The base-62 symbol for a value below 62, executable form.
fn base62_digit(d: u64) -> (c: char)
    requires
        d < 62,
    ensures
        c == base62_char(d as int),
{
    let b = d as u8;
    if b < 10 {
        (0x30 + b) as char
    } else if b < 36 {
        (0x37 + b) as char
    } else {
        (0x3D + b) as char
    }
}

/// Render the five low-order base-62 digits of a counter value, highest
/// first, padding with `0` and silently truncating higher digits.
pub fn to_base62(num: u64) -> (r: String)
    ensures
        r@ == base62_token(num as int),
{
    let mut r = String::new();
    push_char(&mut r, base62_digit((num / 14776336) % 62));
    push_char(&mut r, base62_digit((num / 238328) % 62));
    push_char(&mut r, base62_digit((num / 3844) % 62));
    push_char(&mut r, base62_digit((num / 62) % 62));
    push_char(&mut r, base62_digit(num % 62));
    proof {
        assert(r@ =~= base62_token(num as int));
    }
    r
}

/// Encode a counter value as its five-symbol token: the base-62 digits,
/// kept to exactly the five lowest, zero-padded when shorter.
pub fn encode_base62(value: u64) -> (r: String)
    ensures
        r@ == base62_token(value as int),
{
    to_base62(value)
}

/// Relies on `std::time::SystemTime::now` (with `duration_since` converting
/// the result): the clock's seconds since the Unix epoch, or zero should
/// the clock precede it. Nothing can be promised of a clock reading.
#[verifier::external_body]
fn now_unix_seconds() -> u64 {
    match std::time::SystemTime::now().duration_since(std::time::UNIX_EPOCH) {
        Ok(d) => d.as_secs(),
        Err(_) => 0,
    }
}

/// Hands out connection identifiers. Exclusive access to the generator
/// serializes the calls; each call consumes one counter value.
pub struct ConnIdGenerator {
    counter: u64,
}

impl ConnIdGenerator {
    /// The counter value the next call of `next` will consume.
    pub closed spec fn counter_value(self) -> u64 {
        self.counter
    }

    /// A generator whose counter starts at the current Unix time in
    /// seconds, so identifiers from separate runs rarely collide.
    pub fn new() -> Self {
        ConnIdGenerator { counter: now_unix_seconds() }
    }

    /// A generator whose counter starts at a chosen value.
    pub fn with_seed(seed: u64) -> (r: Self)
        ensures
            r.counter_value() == seed,
    {
        ConnIdGenerator { counter: seed }
    }

    /// Issue the token for the current counter value and advance the
    /// counter by one, so no two calls consume the same value.
    pub fn next(&mut self) -> (id: String)
        ensures
            id@ == base62_token(old(self).counter_value() as int),
            final(self).counter_value() == (if old(self).counter_value() == u64::MAX {
                0u64
            } else {
                (old(self).counter_value() + 1) as u64
            }),
    {
        let value = self.counter;
        self.counter = self.counter.wrapping_add(1);
        to_base62(value)
    }
}

} // verus!
